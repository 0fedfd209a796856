use vstd::prelude::*;

use crate::game::Game;
pub use crate::paths::PathCompleter;
use crate::piece::Piece;
use crate::render::{decimal_text, push_decimal};
use crate::session::{compact_piece, compact_text, strings_view};
use crate::star_system::SystemView;
use crate::text::{
    char_ascii_lower, char_is_space, is_space, lemma_word_len_bound, lowercase, string_from_chars, text_chars, word_len,
    words, words_chars,
};

verus! {

// Tab completion of command lines. Positions count characters of the line.

/// The command names, in the order completion considers them.
pub open spec fn command_names() -> Seq<Seq<char>> {
    seq![
        "help"@, "show"@, "end"@, "quit"@, "ai"@, "save"@, "save-history"@, "load"@, "build"@, "travel"@,
        "trade"@, "sacrifice"@, "invade"@, "catastrophe"@,
    ]
}

/// The short forms of commands.
pub open spec fn alias_words() -> Seq<Seq<char>> {
    seq!["h"@, "e"@, "q"@, "v"@, "sh"@, "l"@, "b"@, "t"@, "tr"@, "x"@, "sac"@, "i"@, "c"@]
}

/// The command that each short form stands for.
pub open spec fn alias_targets() -> Seq<Seq<char>> {
    seq![
        "help"@, "end"@, "quit"@, "save"@, "save-history"@, "load"@, "build"@, "travel"@, "trade"@, "trade"@,
        "sacrifice"@, "invade"@, "catastrophe"@,
    ]
}

fn command_name(i: usize) -> (name: &'static str)
    requires
        i < 14,
    ensures
        name@ == command_names()[i as int],
{
    match i {
        0 => "help",
        1 => "show",
        2 => "end",
        3 => "quit",
        4 => "ai",
        5 => "save",
        6 => "save-history",
        7 => "load",
        8 => "build",
        9 => "travel",
        10 => "trade",
        11 => "sacrifice",
        12 => "invade",
        _ => "catastrophe",
    }
}

fn alias(i: usize) -> (pair: (&'static str, &'static str))
    requires
        i < 13,
    ensures
        pair.0@ == alias_words()[i as int],
        pair.1@ == alias_targets()[i as int],
{
    match i {
        0 => ("h", "help"),
        1 => ("e", "end"),
        2 => ("q", "quit"),
        3 => ("v", "save"),
        4 => ("sh", "save-history"),
        5 => ("l", "load"),
        6 => ("b", "build"),
        7 => ("t", "travel"),
        8 => ("tr", "trade"),
        9 => ("x", "trade"),
        10 => ("sac", "sacrifice"),
        11 => ("i", "invade"),
        _ => ("c", "catastrophe"),
    }
}

/// Whether the text begins with the prefix.
pub open spec fn starts_with(s: Seq<char>, prefix: Seq<char>) -> bool {
    prefix.len() <= s.len() && s.take(prefix.len() as int) == prefix
}

pub(crate) fn chars_start_with(s: &[char], prefix: &[char]) -> (b: bool)
    ensures
        b == starts_with(s@, prefix@),
{
    if prefix.len() > s.len() {
        return false;
    }
    let mut i: usize = 0;
    while i < prefix.len()
        invariant
            prefix@.len() <= s@.len(),
            0 <= i <= prefix@.len(),
            forall|j: int| 0 <= j < i ==> s@[j] == prefix@[j],
        decreases prefix@.len() - i,
    {
        if s[i] != prefix[i] {
            assert(s@.take(prefix@.len() as int)[i as int] != prefix@[i as int]);
            return false;
        }
        i += 1;
    }
    assert(s@.take(prefix@.len() as int) =~= prefix@);
    true
}

fn same(a: &[char], b: &[char]) -> (equal: bool)
    ensures
        equal == (a@ == b@),
{
    crate::text::same_chars(a, b)
}

fn lower_chars(s: &[char]) -> (lower: Vec<char>)
    ensures
        lower@ == lowercase(s@),
{
    let mut out: Vec<char> = Vec::new();
    let mut i: usize = 0;
    while i < s.len()
        invariant
            0 <= i <= s@.len(),
            out@ == lowercase(s@.take(i as int)),
        decreases s@.len() - i,
    {
        out.push(char_ascii_lower(s[i]));
        assert(lowercase(s@.take(i + 1)) =~= lowercase(s@.take(i as int)).push(crate::text::ascii_lower(s@[i as int])));
        i += 1;
    }
    assert(s@.take(s@.len() as int) =~= s@);
    out
}

/// The command that the first exact short form names, from index `i` on.
pub open spec fn alias_from(t: Seq<char>, i: int) -> Option<Seq<char>>
    decreases alias_words().len() - i,
{
    if i < 0 || i >= alias_words().len() {
        None
    } else if alias_words()[i] == t {
        Some(alias_targets()[i])
    } else {
        alias_from(t, i + 1)
    }
}

/// The names among the first `n` commands that begin with `t`, in order.
pub open spec fn name_matches(t: Seq<char>, n: int) -> Seq<Seq<char>>
    decreases n,
{
    if n <= 0 || n > command_names().len() {
        Seq::empty()
    } else if starts_with(command_names()[n - 1], t) {
        name_matches(t, n - 1).push(command_names()[n - 1])
    } else {
        name_matches(t, n - 1)
    }
}

/// The commands of the first `n` short forms that begin with `t`, in order.
pub open spec fn alias_matches(t: Seq<char>, n: int) -> Seq<Seq<char>>
    decreases n,
{
    if n <= 0 || n > alias_words().len() {
        Seq::empty()
    } else if starts_with(alias_words()[n - 1], t) {
        alias_matches(t, n - 1).push(alias_targets()[n - 1])
    } else {
        alias_matches(t, n - 1)
    }
}

/// Whether every candidate is the first.
pub open spec fn all_agree(targets: Seq<Seq<char>>) -> bool {
    forall|i: int| 0 <= i < targets.len() ==> #[trigger] targets[i] == targets[0]
}

/// The one command that all candidates agree on, if there is one.
pub open spec fn unique_target(targets: Seq<Seq<char>>) -> Option<Seq<char>> {
    if targets.len() > 0 && all_agree(targets) {
        Some(targets[0])
    } else {
        None
    }
}

/// What a partly typed command word completes to: the command of an exact
/// short form; nothing for a whole command name; else the one command that
/// every name and short form beginning with the word leads to.
pub open spec fn word_completion_of(token: Seq<char>) -> Option<Seq<char>> {
    let t = lowercase(token);
    match alias_from(t, 0) {
        Some(target) => Some(target),
        None => if command_names().contains(t) {
            None
        } else {
            unique_target(name_matches(t, 14) + alias_matches(t, 13))
        },
    }
}

fn alias_target(t: &[char]) -> (target: Option<&'static str>)
    ensures
        target matches Some(s) ==> alias_from(t@, 0) == Some(s@),
        target is None ==> alias_from(t@, 0) is None,
{
    let mut i: usize = 0;
    while i < 13
        invariant
            0 <= i <= 13,
            alias_from(t@, 0) == alias_from(t@, i as int),
        decreases 13 - i,
    {
        let (word, target) = alias(i);
        let w = text_chars(word);
        if same(w.as_slice(), t) {
            return Some(target);
        }
        i += 1;
    }
    None
}

fn name_index(t: &[char]) -> (found: Option<usize>)
    ensures
        found matches Some(i) ==> i < 14 && command_names()[i as int] == t@,
        found is None ==> !command_names().contains(t@),
{
    let mut i: usize = 0;
    while i < 14
        invariant
            0 <= i <= 14,
            forall|j: int| 0 <= j < i ==> command_names()[j] != t@,
        decreases 14 - i,
    {
        let w = text_chars(command_name(i));
        if same(w.as_slice(), t) {
            return Some(i);
        }
        i += 1;
    }
    assert(command_names().len() == 14);
    None
}

/// Adding one more candidate keeps "all candidates agree" exactly when it
/// agrees with the first.
proof fn lemma_conflict_step(before: Seq<Seq<char>>, x: Seq<char>, old_conflict: bool, conflict: bool)
    requires
        !old_conflict <==> all_agree(before),
        conflict == (old_conflict || (before.len() > 0 && x != before[0])),
    ensures
        !conflict <==> all_agree(before.push(x)),
{
    let after = before.push(x);
    if !conflict {
        assert forall|j: int| 0 <= j < after.len() implies #[trigger] after[j] == after[0] by {
            if j < before.len() {
                assert(after[j] == before[j]);
            }
        }
    } else if old_conflict {
        let j = choose|j: int| 0 <= j < before.len() && #[trigger] before[j] != before[0];
        assert(after[j] == before[j]);
        assert(after[j] != after[0]);
    } else {
        assert(after[before.len() as int] != after[0]);
    }
}

/// Completes a partly typed command word to a command name.
pub fn command_word_completion(token: &str) -> (completion: Option<&'static str>)
    ensures
        completion matches Some(s) ==> word_completion_of(token@) == Some(s@),
        completion is None ==> word_completion_of(token@) is None,
{
    let chars = text_chars(token);
    let t = lower_chars(chars.as_slice());
    if let Some(target) = alias_target(t.as_slice()) {
        return Some(target);
    }
    if name_index(t.as_slice()).is_some() {
        return None;
    }
    let ghost tv = t@;
    let mut matched: Option<&'static str> = None;
    let mut conflict = false;
    let mut i: usize = 0;
    while i < 14
        invariant
            tv == t@,
            0 <= i <= 14,
            matched is None <==> name_matches(tv, i as int).len() == 0,
            matched matches Some(m) ==> m@ == name_matches(tv, i as int)[0],
            !conflict <==> all_agree(name_matches(tv, i as int)),
        decreases 14 - i,
    {
        let name = command_name(i);
        let w = text_chars(name);
        let ghost before = name_matches(tv, i as int);
        let ghost old_conflict = conflict;
        if chars_start_with(w.as_slice(), t.as_slice()) {
            assert(name_matches(tv, i + 1) == before.push(command_names()[i as int]));
            match matched {
                None => {
                    matched = Some(name);
                },
                Some(m) => {
                    let mw = text_chars(m);
                    if !same(mw.as_slice(), w.as_slice()) {
                        conflict = true;
                    }
                },
            }
            proof {
                let after = name_matches(tv, i + 1);
                lemma_conflict_step(before, command_names()[i as int], old_conflict, conflict);
            }
        } else {
            assert(name_matches(tv, i + 1) == before);
        }
        i += 1;
    }
    let ghost names_part = name_matches(tv, 14);
    let mut k: usize = 0;
    while k < 13
        invariant
            tv == t@,
            names_part == name_matches(tv, 14),
            0 <= k <= 13,
            matched is None <==> (names_part + alias_matches(tv, k as int)).len() == 0,
            matched matches Some(m) ==> m@ == (names_part + alias_matches(tv, k as int))[0],
            !conflict <==> all_agree(names_part + alias_matches(tv, k as int)),
        decreases 13 - k,
    {
        let (word, target) = alias(k);
        let w = text_chars(word);
        let ghost before = names_part + alias_matches(tv, k as int);
        let ghost old_conflict = conflict;
        if chars_start_with(w.as_slice(), t.as_slice()) {
            assert(alias_matches(tv, k + 1) == alias_matches(tv, k as int).push(alias_targets()[k as int]));
            assert(names_part + alias_matches(tv, k + 1) =~= before.push(alias_targets()[k as int]));
            match matched {
                None => {
                    matched = Some(target);
                },
                Some(m) => {
                    let mw = text_chars(m);
                    let tw = text_chars(target);
                    if !same(mw.as_slice(), tw.as_slice()) {
                        conflict = true;
                    }
                },
            }
            proof {
                lemma_conflict_step(before, alias_targets()[k as int], old_conflict, conflict);
            }
        } else {
            assert(alias_matches(tv, k + 1) == alias_matches(tv, k as int));
        }
        k += 1;
    }
    if conflict {
        None
    } else {
        matched
    }
}

/// Where the first character that is not white space stands, from `i` on.
pub open spec fn first_word_start(s: Seq<char>, i: int) -> Option<int>
    decreases s.len() - i,
{
    if i < 0 || i >= s.len() {
        None
    } else if !is_space(s[i]) {
        Some(i)
    } else {
        first_word_start(s, i + 1)
    }
}

/// Where the first white space stands from `i` on, or the length.
pub open spec fn word_end(s: Seq<char>, i: int) -> int
    decreases s.len() - i,
{
    if i < 0 || i >= s.len() {
        s.len() as int
    } else if is_space(s[i]) {
        i
    } else {
        word_end(s, i + 1)
    }
}

/// The completion of the command word when the cursor stands at its end:
/// where the word starts, and the command name it completes to. A line
/// with a `;` is not completed.
pub open spec fn command_completion_of(line: Seq<char>, pos: int) -> Option<(int, Seq<char>)> {
    if line.contains(';') {
        None
    } else {
        match first_word_start(line, 0) {
            None => None,
            Some(start) => {
                let end = word_end(line, start);
                if pos != end {
                    None
                } else {
                    match word_completion_of(line.subrange(start, end)) {
                        Some(name) => Some((start, name)),
                        None => None,
                    }
                }
            },
        }
    }
}

fn has_semicolon(s: &[char]) -> (found: bool)
    ensures
        found == s@.contains(';'),
{
    let mut i: usize = 0;
    while i < s.len()
        invariant
            0 <= i <= s@.len(),
            forall|j: int| 0 <= j < i ==> s@[j] != ';',
        decreases s@.len() - i,
    {
        if s[i] == ';' {
            return true;
        }
        i += 1;
    }
    false
}

/// Completes the command word of a line whose cursor stands at that word's
/// end: the word's start and the command name that replaces it.
pub fn command_completion(line: &str, pos: usize) -> (completion: Option<(usize, &'static str)>)
    ensures
        completion matches Some((start, name)) ==> command_completion_of(line@, pos as int) == Some(
            (start as int, name@),
        ),
        completion is None ==> command_completion_of(line@, pos as int) is None,
{
    let chars = text_chars(line);
    if has_semicolon(chars.as_slice()) {
        return None;
    }
    let mut start: usize = 0;
    while start < chars.len() && char_is_space(chars[start])
        invariant
            0 <= start <= chars@.len(),
            first_word_start(chars@, 0) == first_word_start(chars@, start as int),
        decreases chars@.len() - start,
    {
        start += 1;
    }
    if start >= chars.len() {
        return None;
    }
    let mut end: usize = start;
    while end < chars.len() && !char_is_space(chars[end])
        invariant
            start <= end <= chars@.len(),
            word_end(chars@, start as int) == word_end(chars@, end as int),
        decreases chars@.len() - end,
    {
        end += 1;
    }
    if pos != end {
        return None;
    }
    let token = string_from_chars(vstd::slice::slice_subrange(chars.as_slice(), start, end));
    match command_word_completion(token.as_str()) {
        Some(name) => Some((start, name)),
        None => None,
    }
}


/// The texts of string slices.
pub open spec fn str_views(s: Seq<&str>) -> Seq<Seq<char>> {
    s.map_values(|w: &str| w@)
}

/// The words that name a travel's target.
pub open spec fn travel_target_words() -> Seq<Seq<char>> {
    seq!["existing"@, "new"@, "x"@, "n"@]
}

/// The words that name a color.
pub open spec fn color_words() -> Seq<Seq<char>> {
    seq!["red"@, "yellow"@, "green"@, "blue"@, "r"@, "y"@, "g"@, "b"@]
}

/// The words that may follow `ai`.
pub open spec fn ai_target_words() -> Seq<Seq<char>> {
    seq!["show"@, "p1"@, "p2"@]
}

/// The words that set how the AI plays a player.
pub open spec fn ai_mode_words() -> Seq<Seq<char>> {
    seq!["first"@, "priority"@, "search"@, "off"@]
}

fn travel_target_list() -> (words: Vec<&'static str>)
    ensures
        str_views(words@) == travel_target_words(),
{
    let words = vec!["existing", "new", "x", "n"];
    assert(str_views(words@) =~= travel_target_words());
    words
}

fn color_list() -> (words: Vec<&'static str>)
    ensures
        str_views(words@) == color_words(),
{
    let words = vec!["red", "yellow", "green", "blue", "r", "y", "g", "b"];
    assert(str_views(words@) =~= color_words());
    words
}

fn ai_target_list() -> (words: Vec<&'static str>)
    ensures
        str_views(words@) == ai_target_words(),
{
    let words = vec!["show", "p1", "p2"];
    assert(str_views(words@) =~= ai_target_words());
    words
}

fn ai_mode_list() -> (words: Vec<&'static str>)
    ensures
        str_views(words@) == ai_mode_words(),
{
    let words = vec!["first", "priority", "search", "off"];
    assert(str_views(words@) =~= ai_mode_words());
    words
}

/// The candidates that extend what is typed: those that, compared in lower
/// case (`fold`) or as written, begin with the typed word in lower case and
/// are not that word itself; in their order.
pub open spec fn word_matches(current: Seq<char>, candidates: Seq<Seq<char>>, fold: bool) -> Seq<Seq<char>>
    decreases candidates.len(),
{
    if candidates.len() == 0 {
        Seq::empty()
    } else {
        let rest = word_matches(current, candidates.drop_last(), fold);
        let c = candidates.last();
        let key = if fold {
            lowercase(c)
        } else {
            c
        };
        let typed = lowercase(current);
        if starts_with(key, typed) && key != typed {
            rest.push(c)
        } else {
            rest
        }
    }
}

/// The candidates that extend the typed word, compared in lower case.
pub fn word_candidates(current: &str, candidates: &Vec<String>) -> (found: Vec<String>)
    ensures
        strings_view(found@) == word_matches(current@, strings_view(candidates@), true),
{
    let chars = text_chars(current);
    let typed = lower_chars(chars.as_slice());
    let ghost all = strings_view(candidates@);
    let mut found: Vec<String> = Vec::new();
    let mut i: usize = 0;
    while i < candidates.len()
        invariant
            all == strings_view(candidates@),
            typed@ == lowercase(current@),
            0 <= i <= candidates@.len(),
            strings_view(found@) == word_matches(current@, all.take(i as int), true),
        decreases candidates@.len() - i,
    {
        let c = text_chars(candidates[i].as_str());
        let key = lower_chars(c.as_slice());
        let ghost before = found@;
        assert(all.take(i + 1).drop_last() =~= all.take(i as int));
        assert(all.take(i + 1).last() == candidates@[i as int]@);
        if chars_start_with(key.as_slice(), typed.as_slice()) && !same(key.as_slice(), typed.as_slice()) {
            found.push(candidates[i].clone());
            assert(strings_view(found@) =~= strings_view(before).push(candidates@[i as int]@));
        }
        i += 1;
    }
    assert(all.take(candidates@.len() as int) =~= all);
    found
}

/// The fixed words that extend the typed word in lower case.
pub fn static_word_candidates(current: &str, candidates: &Vec<&'static str>) -> (found: Vec<String>)
    ensures
        strings_view(found@) == word_matches(current@, str_views(candidates@), false),
{
    let chars = text_chars(current);
    let typed = lower_chars(chars.as_slice());
    let ghost all = str_views(candidates@);
    let mut found: Vec<String> = Vec::new();
    let mut i: usize = 0;
    while i < candidates.len()
        invariant
            all == str_views(candidates@),
            typed@ == lowercase(current@),
            0 <= i <= candidates@.len(),
            strings_view(found@) == word_matches(current@, all.take(i as int), false),
        decreases candidates@.len() - i,
    {
        let key = text_chars(candidates[i]);
        let ghost before = found@;
        assert(all.take(i + 1).drop_last() =~= all.take(i as int));
        assert(all.take(i + 1).last() == candidates@[i as int]@);
        if chars_start_with(key.as_slice(), typed.as_slice()) && !same(key.as_slice(), typed.as_slice()) {
            found.push(string_from_chars(key.as_slice()));
            assert(strings_view(found@) =~= strings_view(before).push(candidates@[i as int]@));
        }
        i += 1;
    }
    assert(all.take(candidates@.len() as int) =~= all);
    found
}

/// What completes an argument: words from a list, or file paths.
pub ghost enum Candidates {
    Words(Seq<Seq<char>>),
    Paths,
}

/// The command that the first word of a line names: `s` followed by more
/// is a sacrifice, else a command name, a short form, or a word that
/// completes to a command.
pub open spec fn canonical_of(token: Seq<char>, has_args: bool) -> Option<Seq<char>> {
    let t = lowercase(token);
    if t == "s"@ && has_args {
        Some("sacrifice"@)
    } else if command_names().contains(t) {
        Some(t)
    } else {
        match alias_from(t, 0) {
            Some(target) => Some(target),
            None => word_completion_of(t),
        }
    }
}

/// The command that the first word of a line names.
pub fn canonical_command(token: &str, has_args: bool) -> (command: Option<&'static str>)
    ensures
        command matches Some(c) ==> canonical_of(token@, has_args) == Some(c@),
        command is None ==> canonical_of(token@, has_args) is None,
{
    let chars = text_chars(token);
    let t = lower_chars(chars.as_slice());
    let s = text_chars("s");
    if has_args && same(t.as_slice(), s.as_slice()) {
        return Some("sacrifice");
    }
    if let Some(i) = name_index(t.as_slice()) {
        return Some(command_name(i));
    }
    if let Some(target) = alias_target(t.as_slice()) {
        return Some(target);
    }
    let lowered = string_from_chars(t.as_slice());
    command_word_completion(lowered.as_str())
}

/// What completes argument `arg` (counted from the first after the
/// command) of a command: system ids, visible pieces, fixed words, paths,
/// or nothing.
pub open spec fn candidates_of(
    command: Seq<char>,
    arg: int,
    tokens: Seq<Seq<char>>,
    current: Seq<char>,
    ids: Seq<Seq<char>>,
    pieces: Seq<Seq<char>>,
) -> Option<Candidates> {
    let id_words = Candidates::Words(word_matches(current, ids, true));
    let piece_words = Candidates::Words(word_matches(current, pieces, true));
    if (command == "save"@ || command == "save-history"@ || command == "load"@) && arg == 0 {
        Some(Candidates::Paths)
    } else if command == "build"@ || command == "sacrifice"@ || command == "invade"@ {
        if arg == 0 {
            Some(id_words)
        } else if arg == 1 {
            Some(piece_words)
        } else {
            None
        }
    } else if command == "trade"@ {
        if arg == 0 {
            Some(id_words)
        } else if arg == 1 || arg == 2 {
            Some(piece_words)
        } else {
            None
        }
    } else if command == "travel"@ {
        if arg == 0 {
            Some(id_words)
        } else if arg == 1 {
            Some(piece_words)
        } else if arg == 2 {
            Some(Candidates::Words(word_matches(current, travel_target_words(), false)))
        } else if (arg == 3 || arg == 4) && tokens.len() > 3 {
            let target = lowercase(tokens[3]);
            if target == "new"@ || target == "n"@ {
                Some(piece_words)
            } else if arg == 3 && (target == "existing"@ || target == "x"@) {
                Some(id_words)
            } else {
                None
            }
        } else {
            None
        }
    } else if command == "catastrophe"@ {
        if arg == 0 {
            Some(id_words)
        } else if arg == 1 {
            Some(Candidates::Words(word_matches(current, color_words(), false)))
        } else {
            None
        }
    } else if command == "ai"@ {
        if arg == 0 {
            Some(Candidates::Words(word_matches(current, ai_target_words(), false)))
        } else if arg == 1 && tokens.len() > 1 && (tokens[1] == "p1"@ || tokens[1] == "p2"@) {
            Some(Candidates::Words(word_matches(current, ai_mode_words(), false)))
        } else {
            None
        }
    } else {
        None
    }
}

/// The candidates for an argument; file paths come from `paths`.
pub fn argument_candidates<P: PathCompleter>(
    command: &str,
    arg: usize,
    tokens: &Vec<Vec<char>>,
    current: &str,
    snapshot: &CompletionSnapshot,
    paths: &P,
) -> (found: Option<Vec<String>>)
    ensures
        candidates_of(command@, arg as int, crate::text::token_views(tokens@), current@, strings_view(snapshot.system_ids@), strings_view(snapshot.pieces@)) is None ==> found is None,
        candidates_of(command@, arg as int, crate::text::token_views(tokens@), current@, strings_view(snapshot.system_ids@), strings_view(snapshot.pieces@)) matches Some(Candidates::Words(w)) ==> found matches Some(v) && strings_view(v@) == w,
        candidates_of(command@, arg as int, crate::text::token_views(tokens@), current@, strings_view(snapshot.system_ids@), strings_view(snapshot.pieces@)) matches Some(Candidates::Paths) ==> (found matches Some(v) && crate::paths::completes_path(current@, crate::save::string_views(v@))),
{
    let c = text_chars(command);
    let is = |word: &str| -> (b: bool)
        ensures
            b == (c@ == word@),
        { same(c.as_slice(), text_chars(word).as_slice()) };
    let ids = &snapshot.system_ids;
    let pieces = &snapshot.pieces;
    if (is("save") || is("save-history") || is("load")) && arg == 0 {
        return Some(crate::paths::path_candidates(current, paths));
    }
    if is("build") || is("sacrifice") || is("invade") {
        return if arg == 0 {
            Some(word_candidates(current, ids))
        } else if arg == 1 {
            Some(word_candidates(current, pieces))
        } else {
            None
        };
    }
    if is("trade") {
        return if arg == 0 {
            Some(word_candidates(current, ids))
        } else if arg == 1 || arg == 2 {
            Some(word_candidates(current, pieces))
        } else {
            None
        };
    }
    if is("travel") {
        if arg == 0 {
            return Some(word_candidates(current, ids));
        } else if arg == 1 {
            return Some(word_candidates(current, pieces));
        } else if arg == 2 {
            return Some(static_word_candidates(current, &travel_target_list()));
        } else if (arg == 3 || arg == 4) && tokens.len() > 3 {
            let target = lower_chars(tokens[3].as_slice());
            assert(tokens@[3]@ == crate::text::token_views(tokens@)[3]);
            let new_word = same(target.as_slice(), text_chars("new").as_slice()) || same(target.as_slice(), text_chars("n").as_slice());
            let existing = same(target.as_slice(), text_chars("existing").as_slice()) || same(target.as_slice(), text_chars("x").as_slice());
            if new_word {
                return Some(word_candidates(current, pieces));
            } else if arg == 3 && existing {
                return Some(word_candidates(current, ids));
            } else {
                return None;
            }
        } else {
            return None;
        }
    }
    if is("catastrophe") {
        return if arg == 0 {
            Some(word_candidates(current, ids))
        } else if arg == 1 {
            Some(static_word_candidates(current, &color_list()))
        } else {
            None
        };
    }
    if is("ai") {
        if arg == 0 {
            return Some(static_word_candidates(current, &ai_target_list()));
        }
        if arg == 1 && tokens.len() > 1 {
            assert(tokens@[1]@ == crate::text::token_views(tokens@)[1]);
            let second = tokens[1].as_slice();
            if same(second, text_chars("p1").as_slice()) || same(second, text_chars("p2").as_slice()) {
                return Some(static_word_candidates(current, &ai_mode_list()));
            }
        }
        return None;
    }
    None
}


/// The completion words that a position offers: its system ids and the
/// compact names of the pieces in sight.
pub struct CompletionSnapshot {
    pub system_ids: Vec<String>,
    pub pieces: Vec<String>,
}

/// The ids `0` to `n - 1` in decimal.
pub open spec fn system_id_texts(n: nat) -> Seq<Seq<char>> {
    Seq::new(n, |i: int| decimal_text(i as nat))
}

/// The compact names of pieces, in order.
pub open spec fn piece_texts(pieces: Seq<Piece>) -> Seq<Seq<char>> {
    pieces.map_values(|p: Piece| compact_text(p))
}

/// The compact names of every system's stars, then its ships, system by
/// system.
pub open spec fn board_piece_texts(systems: Seq<SystemView>) -> Seq<Seq<char>>
    decreases systems.len(),
{
    if systems.len() == 0 {
        Seq::empty()
    } else {
        board_piece_texts(systems.drop_last()) + piece_texts(systems.last().stars) + piece_texts(systems.last().ships)
    }
}

/// The words in order of first appearance, each once.
pub open spec fn first_occurrences(s: Seq<Seq<char>>) -> Seq<Seq<char>>
    decreases s.len(),
{
    if s.len() == 0 {
        Seq::empty()
    } else {
        let rest = first_occurrences(s.drop_last());
        if rest.contains(s.last()) {
            rest
        } else {
            rest.push(s.last())
        }
    }
}

fn contains_string(list: &Vec<String>, text: &String) -> (found: bool)
    ensures
        found == strings_view(list@).contains(text@),
{
    let mut i: usize = 0;
    while i < list.len()
        invariant
            0 <= i <= list@.len(),
            forall|j: int| 0 <= j < i ==> strings_view(list@)[j] != text@,
        decreases list@.len() - i,
    {
        if list[i] == *text {
            assert(strings_view(list@)[i as int] == text@);
            return true;
        }
        i += 1;
    }
    false
}

/// Adds the compact name of a piece unless it is there already.
fn push_piece_completion(pieces: &mut Vec<String>, piece: Piece)
    ensures
        strings_view(final(pieces)@) == if strings_view(old(pieces)@).contains(compact_text(piece)) {
            strings_view(old(pieces)@)
        } else {
            strings_view(old(pieces)@).push(compact_text(piece))
        },
{
    let token = compact_piece(piece);
    if !contains_string(pieces, &token) {
        let ghost before = pieces@;
        pieces.push(token);
        assert(strings_view(pieces@) =~= strings_view(before).push(compact_text(piece)));
    }
}

/// Adds the names of a run of pieces, keeping each name once.
fn push_piece_run(pieces: &mut Vec<String>, run: &[Piece], Ghost(seen): Ghost<Seq<Seq<char>>>)
    requires
        strings_view(old(pieces)@) == first_occurrences(seen),
    ensures
        strings_view(final(pieces)@) == first_occurrences(seen + piece_texts(run@)),
{
    let mut j: usize = 0;
    while j < run.len()
        invariant
            0 <= j <= run@.len(),
            strings_view(pieces@) == first_occurrences(seen + piece_texts(run@.take(j as int))),
        decreases run@.len() - j,
    {
        let ghost prev = seen + piece_texts(run@.take(j as int));
        push_piece_completion(pieces, run[j]);
        proof {
            let next = seen + piece_texts(run@.take(j + 1));
            assert(piece_texts(run@.take(j + 1)) =~= piece_texts(run@.take(j as int)).push(compact_text(run@[j as int])));
            assert(next =~= prev.push(compact_text(run@[j as int])));
            assert(next.drop_last() =~= prev);
        }
        j += 1;
    }
    assert(run@.take(run@.len() as int) =~= run@);
}

impl CompletionSnapshot {
    /// No ids and no pieces.
    pub fn empty() -> (snapshot: CompletionSnapshot)
        ensures
            snapshot.system_ids@.len() == 0,
            snapshot.pieces@.len() == 0,
    {
        CompletionSnapshot { system_ids: Vec::new(), pieces: Vec::new() }
    }

    /// The ids of the position's systems, and the compact names of the
    /// pieces on the board, each once, in the order systems, stars and
    /// ships come.
    pub fn from_game(game: &Game) -> (snapshot: CompletionSnapshot)
        ensures
            strings_view(snapshot.system_ids@) == system_id_texts(game@.turn.state.systems.len()),
            strings_view(snapshot.pieces@) == first_occurrences(board_piece_texts(game@.turn.state.systems)),
    {
        let state = game.turn().state();
        let systems = state.systems();
        let ghost views = game@.turn.state.systems;
        assert(crate::game_state::system_views(systems@) == views);
        let mut ids: Vec<String> = Vec::new();
        let mut pieces: Vec<String> = Vec::new();
        let mut i: usize = 0;
        while i < systems.len()
            invariant
                crate::game_state::system_views(systems@) == views,
                0 <= i <= systems@.len(),
                strings_view(ids@) == system_id_texts(i as nat),
                strings_view(pieces@) == first_occurrences(board_piece_texts(views.take(i as int))),
            decreases systems@.len() - i,
        {
            let mut digits: Vec<char> = Vec::new();
            push_decimal(&mut digits, i);
            let ghost before_ids = ids@;
            ids.push(string_from_chars(digits.as_slice()));
            assert(strings_view(ids@) =~= system_id_texts((i + 1) as nat)) by {
                assert(strings_view(ids@) =~= strings_view(before_ids).push(decimal_text(i as nat)));
            }
            let system = &systems[i];
            let ghost sv = views[i as int];
            assert(system@ == sv);
            let ghost base = board_piece_texts(views.take(i as int));
            push_piece_run(&mut pieces, system.stars(), Ghost(base));
            push_piece_run(&mut pieces, system.ships(), Ghost(base + piece_texts(sv.stars)));
            proof {
                assert(views.take(i + 1).drop_last() =~= views.take(i as int));
                assert(views.take(i + 1).last() == sv);
                assert(board_piece_texts(views.take(i + 1)) == base + piece_texts(sv.stars) + piece_texts(sv.ships));
            }
            i += 1;
        }
        assert(views.take(systems@.len() as int) =~= views);
        CompletionSnapshot { system_ids: ids, pieces }
    }
}

impl Default for CompletionSnapshot {
    fn default() -> (snapshot: CompletionSnapshot)
        ensures
            snapshot.system_ids@.len() == 0,
            snapshot.pieces@.len() == 0,
    {
        CompletionSnapshot::empty()
    }
}


/// No word of a text is longer than the text.
pub proof fn lemma_words_short(s: Seq<char>)
    ensures
        forall|i: int| 0 <= i < words(s).len() ==> #[trigger] words(s)[i].len() <= s.len(),
    decreases s.len(),
{
    if s.len() > 0 {
        if is_space(s[0]) {
            lemma_words_short(s.drop_first());
            assert(words(s) == words(s.drop_first()));
        } else {
            let n = word_len(s);
            if n > 0 {
                lemma_word_len_bound(s);
                lemma_words_short(s.skip(n as int));
                assert(words(s) == seq![s.take(n as int)] + words(s.skip(n as int)));
                assert forall|i: int| 0 <= i < words(s).len() implies #[trigger] words(s)[i].len() <= s.len() by {
                    if i > 0 {
                        assert(words(s)[i] == words(s.skip(n as int))[i - 1]);
                    }
                }
            }
        }
    }
}

/// The argument being typed at the end of a line: its last word, or
/// nothing after a space.
pub open spec fn typed_argument(line: Seq<char>) -> Seq<char> {
    if line.len() > 0 && is_space(line.last()) {
        Seq::empty()
    } else {
        words(line).last()
    }
}

/// The completion of an argument when the cursor stands at the end of the
/// line: where the replaced word starts, and what may replace it. There is
/// none for a line that is only its first word, for a first word that names
/// no command, or when no word fits.
pub open spec fn argument_completion_of(
    line: Seq<char>,
    pos: int,
    ids: Seq<Seq<char>>,
    pieces: Seq<Seq<char>>,
) -> Option<(int, Candidates)> {
    let ends_with_space = line.len() > 0 && is_space(line.last());
    let tokens = words(line);
    if pos != line.len() || tokens.len() == 0 || (!ends_with_space && tokens.len() == 1) {
        None
    } else {
        let has_args = tokens.len() > 1 || ends_with_space;
        match canonical_of(tokens[0], has_args) {
            None => None,
            Some(command) => {
                let current = if ends_with_space {
                    Seq::empty()
                } else {
                    tokens.last()
                };
                let start = pos - current.len();
                let arg = if ends_with_space {
                    tokens.len() - 1
                } else {
                    tokens.len() - 2
                };
                match candidates_of(command, arg, tokens, current, ids, pieces) {
                    None => None,
                    Some(Candidates::Words(found)) => if found.len() == 0 {
                        None
                    } else {
                        Some((start, Candidates::Words(found)))
                    },
                    Some(Candidates::Paths) => Some((start, Candidates::Paths)),
                }
            },
        }
    }
}

/// Completes the argument being typed at the end of a line; file paths
/// come from `paths`.
pub fn argument_completion<P: PathCompleter>(
    line: &str,
    pos: usize,
    snapshot: &CompletionSnapshot,
    paths: &P,
) -> (completion: Option<(usize, Vec<String>)>)
    ensures
        argument_completion_of(line@, pos as int, strings_view(snapshot.system_ids@), strings_view(snapshot.pieces@))
            is None ==> completion is None,
        argument_completion_of(line@, pos as int, strings_view(snapshot.system_ids@), strings_view(snapshot.pieces@))
            matches Some((start, Candidates::Words(found))) ==> completion matches Some((s, v)) && s == start
            && strings_view(v@) == found,
        argument_completion_of(line@, pos as int, strings_view(snapshot.system_ids@), strings_view(snapshot.pieces@))
            matches Some((start, Candidates::Paths)) ==> (completion matches Some((s, v)) ==> s == start && v@.len() > 0
            && crate::paths::completes_path(typed_argument(line@), crate::save::string_views(v@))),
{
    let chars = text_chars(line);
    if pos != chars.len() {
        return None;
    }
    let ends_with_space = chars.len() > 0 && char_is_space(chars[chars.len() - 1]);
    let tokens = words_chars(chars.as_slice());
    if tokens.len() == 0 || (!ends_with_space && tokens.len() == 1) {
        return None;
    }
    let has_args = tokens.len() > 1 || ends_with_space;
    assert(tokens@[0]@ == crate::text::token_views(tokens@)[0]);
    let first = string_from_chars(tokens[0].as_slice());
    let command = match canonical_command(first.as_str(), has_args) {
        Some(command) => command,
        None => {
            return None;
        },
    };
    let last = tokens.len() - 1;
    assert(tokens@[last as int]@ == crate::text::token_views(tokens@)[last as int]);
    let current: Vec<char> = if ends_with_space {
        Vec::new()
    } else {
        vstd::slice::slice_to_vec(tokens[last].as_slice())
    };
    proof {
        lemma_words_short(chars@);
        assert(words(chars@)[last as int].len() <= chars@.len());
    }
    let start = pos - current.len();
    let arg = if ends_with_space {
        tokens.len() - 1
    } else {
        tokens.len() - 2
    };
    let typed = string_from_chars(current.as_slice());
    match argument_candidates(command, arg, &tokens, typed.as_str(), snapshot, paths) {
        None => None,
        Some(found) => if found.len() == 0 {
            None
        } else {
            Some((start, found))
        },
    }
}

/// What completes the line at the cursor: the command word, else the
/// argument being typed at its end.
pub open spec fn completion_of(
    line: Seq<char>,
    pos: int,
    ids: Seq<Seq<char>>,
    pieces: Seq<Seq<char>>,
) -> Option<(int, Candidates)> {
    if line.contains(';') {
        None
    } else {
        match command_completion_of(line, pos) {
            Some((start, name)) => Some((start, Candidates::Words(seq![name]))),
            None => argument_completion_of(line, pos, ids, pieces),
        }
    }
}

/// The replacements that tab completion offers for a line at the cursor,
/// with where the replaced text starts; file paths come from `paths`.
pub fn completion_candidates<P: PathCompleter>(
    line: &str,
    pos: usize,
    snapshot: &CompletionSnapshot,
    paths: &P,
) -> (completion: Option<(usize, Vec<String>)>)
    ensures
        completion_of(line@, pos as int, strings_view(snapshot.system_ids@), strings_view(snapshot.pieces@)) is None
            ==> completion is None,
        completion_of(line@, pos as int, strings_view(snapshot.system_ids@), strings_view(snapshot.pieces@))
            matches Some((start, Candidates::Words(found))) ==> completion matches Some((s, v)) && s == start
            && strings_view(v@) == found,
        completion_of(line@, pos as int, strings_view(snapshot.system_ids@), strings_view(snapshot.pieces@))
            matches Some((start, Candidates::Paths)) ==> (completion matches Some((s, v)) ==> s == start && v@.len() > 0
            && crate::paths::completes_path(typed_argument(line@), crate::save::string_views(v@))),
{
    let chars = text_chars(line);
    if has_semicolon(chars.as_slice()) {
        return None;
    }
    if let Some((start, name)) = command_completion(line, pos) {
        let text = text_chars(name);
        let mut found: Vec<String> = Vec::new();
        found.push(string_from_chars(text.as_slice()));
        assert(strings_view(found@) =~= seq![name@]);
        return Some((start, found));
    }
    argument_completion(line, pos, snapshot, paths)
}

} // verus!
