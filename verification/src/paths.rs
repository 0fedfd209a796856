//! Completion of file paths: the typed path is split into a directory and a
//! prefix, the directory's entries that extend the prefix become
//! replacements, and the replacements come out in text order.
use vstd::prelude::*;
use crate::text::{char_is_space, is_space, same_chars, string_from_chars, text_chars};

verus! {

broadcast use vstd::seq_lib::group_to_multiset_ensures;

/// An entry of a directory: its name, and whether it is a directory itself.
#[derive(Clone, Debug)]
pub struct DirectoryEntry {
    pub name: String,
    pub is_directory: bool,
}

/// Where completion reads directories. The program that completes lines
/// provides it.
pub trait PathCompleter {
    /// The entries of a directory, or `None` when it cannot be read.
    fn read_directory(&self, directory: &str) -> Option<Vec<DirectoryEntry>>;
}

/// What std's `Path::parent` gives for a path, as text.
pub uninterp spec fn parent_path(path: Seq<char>) -> Option<Seq<char>>;

/// What std's `Path::file_name` gives for a path, as text.
pub uninterp spec fn final_component(path: Seq<char>) -> Option<Seq<char>>;

/// What std's `Path::join` gives for a directory and a name, as displayed
/// text.
pub uninterp spec fn joined_path(directory: Seq<char>, name: Seq<char>) -> Seq<char>;

/// The text of an optional string.
pub open spec fn text_option(text: Option<String>) -> Option<Seq<char>> {
    match text {
        Some(t) => Some(t@),
        None => None,
    }
}

/// The path without its final component (std's `Path::parent`); `None`
/// when the path ends in a root or is empty. The contract names the result
/// and says no more of it.
#[verifier::external_body]
fn path_parent(path: &str) -> (parent: Option<String>)
    ensures
        text_option(parent) == parent_path(path@),
{
    std::path::Path::new(path).parent().map(|p| p.to_string_lossy().into_owned())
}

/// The final component of the path (std's `Path::file_name`); `None` when
/// the path ends in `..`. The contract names the result and says no more of
/// it.
#[verifier::external_body]
fn path_file_name(path: &str) -> (name: Option<String>)
    ensures
        text_option(name) == final_component(path@),
{
    std::path::Path::new(path).file_name().map(|n| n.to_string_lossy().into_owned())
}

/// The name joined onto the directory (std's `Path::join`), shown as text
/// with `Path::display`. The contract names the result and says no more of
/// it.
#[verifier::external_body]
fn path_join(directory: &str, name: &str) -> (path: String)
    ensures
        path@ == joined_path(directory@, name@),
{
    std::path::Path::new(directory).join(name).display().to_string()
}

/// The text, or nothing in its place.
pub open spec fn or_empty(text: Option<Seq<char>>) -> Seq<char> {
    match text {
        Some(t) => t,
        None => Seq::empty(),
    }
}

/// The directory and the prefix of a typed path: the whole path and no
/// prefix when it ends in `/`, else its parent and its final component,
/// each empty when the path has none.
pub open spec fn split_of(current: Seq<char>) -> (Seq<char>, Seq<char>) {
    if current.len() > 0 && current.last() == '/' {
        (current, Seq::empty())
    } else {
        (or_empty(parent_path(current)), or_empty(final_component(current)))
    }
}

/// Splits a typed path into the directory to list and the prefix that
/// entries must start with.
pub fn split_path(current: &str) -> (parts: (String, String))
    ensures
        parts.0@ == split_of(current@).0,
        parts.1@ == split_of(current@).1,
{
    let chars = text_chars(current);
    if chars.len() > 0 && chars[chars.len() - 1] == '/' {
        return (string_from_chars(chars.as_slice()), string_from_chars(&[]));
    }
    let empty: Vec<char> = Vec::new();
    let directory = match path_parent(current) {
        Some(parent) => parent,
        None => string_from_chars(empty.as_slice()),
    };
    let prefix = match path_file_name(current) {
        Some(name) => name,
        None => string_from_chars(empty.as_slice()),
    };
    (directory, prefix)
}

/// The directory that is read for a split directory: `.` for an empty one.
pub open spec fn listed_directory(directory: Seq<char>) -> Seq<char> {
    if directory.len() == 0 {
        seq!['.']
    } else {
        directory
    }
}

/// Whether the text starts with the prefix.
pub open spec fn has_prefix(text: Seq<char>, prefix: Seq<char>) -> bool {
    prefix.len() <= text.len() && text.take(prefix.len() as int) == prefix
}

/// Whether the text holds white space.
pub open spec fn has_space(text: Seq<char>) -> bool {
    exists|i: int| 0 <= i < text.len() && is_space(#[trigger] text[i])
}

/// The path of an entry: its name alone in an empty directory, else the
/// name joined onto the directory.
pub open spec fn entry_path(directory: Seq<char>, name: Seq<char>) -> Seq<char> {
    if directory.len() == 0 {
        name
    } else {
        joined_path(directory, name)
    }
}

/// What replaces the typed path for an entry's path: nothing when it is the
/// typed path itself or holds white space, else the path, with `/` after a
/// directory.
pub open spec fn replacement_of(current: Seq<char>, path: Seq<char>, is_directory: bool) -> Option<Seq<char>> {
    if path == current || has_space(path) {
        None
    } else if is_directory {
        Some(path.push('/'))
    } else {
        Some(path)
    }
}

/// The replacement for an entry's path.
pub fn path_replacement(current: &str, path: &str, is_directory: bool) -> (replacement: Option<String>)
    ensures
        text_option(replacement) == replacement_of(current@, path@, is_directory),
{
    let mut chars = text_chars(path);
    let typed = text_chars(current);
    if same_chars(chars.as_slice(), typed.as_slice()) {
        return None;
    }
    let mut i: usize = 0;
    while i < chars.len()
        invariant
            chars@ == path@,
            0 <= i <= chars@.len(),
            forall|k: int| 0 <= k < i ==> !is_space(#[trigger] chars@[k]),
        decreases chars@.len() - i,
    {
        if char_is_space(chars[i]) {
            return None;
        }
        i += 1;
    }
    if is_directory {
        chars.push('/');
    }
    Some(string_from_chars(chars.as_slice()))
}

/// The views of directory entries.
pub open spec fn entry_views(entries: Seq<DirectoryEntry>) -> Seq<(Seq<char>, bool)> {
    entries.map_values(|e: DirectoryEntry| (e.name@, e.is_directory))
}

/// The replacements for the entries that start with the prefix, in the
/// order of the entries.
pub open spec fn entry_replacements(
    current: Seq<char>,
    directory: Seq<char>,
    prefix: Seq<char>,
    entries: Seq<(Seq<char>, bool)>,
) -> Seq<Seq<char>>
    decreases entries.len(),
{
    if entries.len() == 0 {
        Seq::empty()
    } else {
        let rest = entry_replacements(current, directory, prefix, entries.drop_last());
        let (name, is_directory) = entries.last();
        if has_prefix(name, prefix) {
            match replacement_of(current, entry_path(directory, name), is_directory) {
                Some(r) => rest.push(r),
                None => rest,
            }
        } else {
            rest
        }
    }
}

/// Whether `a` comes before `b`, or is `b`, when texts are compared
/// character by character from position `i` on: the order of std's `String`.
pub open spec fn text_le_from(a: Seq<char>, b: Seq<char>, i: int) -> bool
    decreases a.len() - i,
{
    if i < 0 || i >= a.len() {
        true
    } else if i >= b.len() {
        false
    } else if (a[i] as int) < (b[i] as int) {
        true
    } else if a[i] == b[i] {
        text_le_from(a, b, i + 1)
    } else {
        false
    }
}

/// Whether `a` comes before `b` or is `b` in text order.
pub open spec fn text_le(a: Seq<char>, b: Seq<char>) -> bool {
    text_le_from(a, b, 0)
}

/// Whether the texts are in text order.
pub open spec fn texts_sorted(texts: Seq<Seq<char>>) -> bool {
    forall|i: int, j: int| 0 <= i < j < texts.len() ==> text_le(#[trigger] texts[i], #[trigger] texts[j])
}

/// Any two texts are ordered one way or the other.
pub proof fn lemma_text_le_total(a: Seq<char>, b: Seq<char>, i: int)
    requires
        0 <= i,
    ensures
        text_le_from(a, b, i) || text_le_from(b, a, i),
    decreases a.len() - i,
{
    if i < a.len() && i < b.len() {
        if a[i] == b[i] {
            lemma_text_le_total(a, b, i + 1);
        } else {
            assert((a[i] as int) != (b[i] as int));
        }
    }
}

/// Text order is transitive.
pub proof fn lemma_text_le_transitive(a: Seq<char>, b: Seq<char>, c: Seq<char>, i: int)
    requires
        0 <= i,
        text_le_from(a, b, i),
        text_le_from(b, c, i),
    ensures
        text_le_from(a, c, i),
    decreases a.len() - i,
{
    if i < a.len() && i < b.len() && i < c.len() && a[i] == b[i] && b[i] == c[i] {
        lemma_text_le_transitive(a, b, c, i + 1);
    }
}

/// Whether `a` comes before `b` or is `b` in text order.
pub fn text_at_most(a: &[char], b: &[char]) -> (le: bool)
    ensures
        le == text_le(a@, b@),
{
    let mut i: usize = 0;
    while i < a.len()
        invariant
            0 <= i <= a@.len(),
            text_le_from(a@, b@, 0) == text_le_from(a@, b@, i as int),
        decreases a@.len() - i,
    {
        if i >= b.len() {
            return false;
        }
        if a[i] < b[i] {
            return true;
        }
        if a[i] != b[i] {
            return false;
        }
        i += 1;
    }
    true
}

/// The texts in text order.
pub fn sort_texts(texts: Vec<String>) -> (sorted: Vec<String>)
    ensures
        texts_sorted(crate::save::string_views(sorted@)),
        crate::save::string_views(sorted@).to_multiset() == crate::save::string_views(texts@).to_multiset(),
{
    let ghost all = crate::save::string_views(texts@);
    let mut sorted: Vec<String> = Vec::new();
    let mut i: usize = 0;
    while i < texts.len()
        invariant
            all == crate::save::string_views(texts@),
            0 <= i <= texts@.len(),
            texts_sorted(crate::save::string_views(sorted@)),
            crate::save::string_views(sorted@).to_multiset() == all.take(i as int).to_multiset(),
        decreases texts@.len() - i,
    {
        let item = texts[i].clone();
        let ghost x = texts@[i as int]@;
        assert(item@ == x);
        let key = text_chars(item.as_str());
        let ghost before = crate::save::string_views(sorted@);
        let mut p: usize = 0;
        while p < sorted.len()
            invariant
                before == crate::save::string_views(sorted@),
                key@ == x,
                0 <= p <= sorted@.len(),
                forall|k: int| 0 <= k < p ==> text_le(#[trigger] before[k], x),
            ensures
                p == sorted@.len() || !text_le(before[p as int], x),
            decreases sorted@.len() - p,
        {
            let other = text_chars(sorted[p].as_str());
            if !text_at_most(other.as_slice(), key.as_slice()) {
                break;
            }
            p += 1;
        }
        sorted.insert(p, item);
        proof {
            let after = crate::save::string_views(sorted@);
            assert(after =~= before.insert(p as int, x));
            assert forall|a: int, b: int| 0 <= a < b < after.len() implies text_le(#[trigger] after[a], #[trigger] after[b]) by {
                if b == p {
                    assert(text_le(before[a], x));
                } else if a == p {
                    let q = b - 1;
                    if p < before.len() {
                        lemma_text_le_total(before[p as int], x, 0);
                        if q > p {
                            assert(text_le(before[p as int], before[q]));
                            lemma_text_le_transitive(x, before[p as int], before[q], 0);
                        }
                    }
                } else {
                    let aa = if a < p { a } else { a - 1 };
                    let bb = if b < p { b } else { b - 1 };
                    assert(text_le(before[aa], before[bb]));
                }
            }
            assert(all.take(i + 1) =~= all.take(i as int).push(x));
        }
        i += 1;
    }
    proof {
        assert(all.take(texts@.len() as int) =~= all);
    }
    sorted
}

/// The replacements for a typed path from the entries of its directory, in
/// text order.
pub fn candidates_from_entries(
    current: &str,
    directory: &str,
    prefix: &str,
    entries: &Vec<DirectoryEntry>,
) -> (found: Vec<String>)
    ensures
        texts_sorted(crate::save::string_views(found@)),
        crate::save::string_views(found@).to_multiset() == entry_replacements(
            current@,
            directory@,
            prefix@,
            entry_views(entries@),
        ).to_multiset(),
{
    let ghost all = entry_views(entries@);
    let start = text_chars(prefix);
    let dir = text_chars(directory);
    let mut found: Vec<String> = Vec::new();
    let mut i: usize = 0;
    while i < entries.len()
        invariant
            all == entry_views(entries@),
            start@ == prefix@,
            dir@ == directory@,
            0 <= i <= entries@.len(),
            crate::save::string_views(found@) == entry_replacements(current@, directory@, prefix@, all.take(i as int)),
        decreases entries@.len() - i,
    {
        let entry = &entries[i];
        let name = text_chars(entry.name.as_str());
        proof {
            assert(all.take(i + 1).drop_last() =~= all.take(i as int));
            assert(all.take(i + 1).last() == (entry.name@, entry.is_directory));
        }
        if crate::completion::chars_start_with(name.as_slice(), start.as_slice()) {
            let path = if dir.len() == 0 {
                string_from_chars(name.as_slice())
            } else {
                path_join(directory, entry.name.as_str())
            };
            let ghost before = crate::save::string_views(found@);
            match path_replacement(current, path.as_str(), entry.is_directory) {
                Some(r) => {
                    found.push(r);
                    proof {
                        assert(crate::save::string_views(found@) =~= before.push(r@));
                    }
                },
                None => {},
            }
        }
        i += 1;
    }
    proof {
        assert(all.take(entries@.len() as int) =~= all);
    }
    sort_texts(found)
}

/// Whether the paths are what completing the typed path gives for some
/// listing of its directory: in text order, and the replacements for some
/// list of entries.
pub open spec fn completes_path(current: Seq<char>, found: Seq<Seq<char>>) -> bool {
    &&& texts_sorted(found)
    &&& exists|entries: Seq<(Seq<char>, bool)>|
        found.to_multiset() == #[trigger] entry_replacements(
            current,
            split_of(current).0,
            split_of(current).1,
            entries,
        ).to_multiset()
}

/// The directory that completing a typed path lists: the directory part
/// of the typed path, or `.` when it has none.
pub fn listed_path(current: &str) -> (listed: String)
    ensures
        listed@ == listed_directory(split_of(current@).0),
{
    let (directory, _) = split_path(current);
    let dchars = text_chars(directory.as_str());
    if dchars.len() == 0 {
        string_from_chars(&['.'])
    } else {
        string_from_chars(dchars.as_slice())
    }
}

/// The paths that complete a typed path, in text order: the replacements
/// from the entries of its directory as `files` lists them, none when the
/// directory cannot be read.
pub fn path_candidates<P: PathCompleter>(current: &str, files: &P) -> (found: Vec<String>)
    ensures
        completes_path(current@, crate::save::string_views(found@)),
        texts_sorted(crate::save::string_views(found@)),
        exists|entries: Seq<(Seq<char>, bool)>|
            crate::save::string_views(found@).to_multiset() == #[trigger] entry_replacements(
                current@,
                split_of(current@).0,
                split_of(current@).1,
                entries,
            ).to_multiset(),
{
    let (directory, prefix) = split_path(current);
    let listed = listed_path(current);
    match files.read_directory(listed.as_str()) {
        Some(entries) => {
            let found = candidates_from_entries(current, directory.as_str(), prefix.as_str(), &entries);
            proof {
                let w = entry_views(entries@);
                assert(crate::save::string_views(found@).to_multiset() == entry_replacements(current@, split_of(current@).0, split_of(current@).1, w).to_multiset());
            }
            found
        },
        None => {
            let found: Vec<String> = Vec::new();
            proof {
                let w: Seq<(Seq<char>, bool)> = Seq::empty();
                assert(crate::save::string_views(found@) =~= entry_replacements(current@, split_of(current@).0, split_of(current@).1, w));
                assert(crate::save::string_views(found@).to_multiset() == entry_replacements(current@, split_of(current@).0, split_of(current@).1, w).to_multiset());
                assert(texts_sorted(crate::save::string_views(found@)));
            }
            found
        },
    }
}

} // verus!
