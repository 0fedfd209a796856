use vstd::prelude::*;

verus! {

/// The characters of a text, in order.
pub fn text_chars(text: &str) -> (chars: Vec<char>)
    ensures
        chars@ == text@,
{
    let mut chars: Vec<char> = Vec::new();
    for c in it: text.chars()
        invariant
            it.seq() == text@,
            chars@ == it.seq().take(it.index() as int),
    {
        chars.push(c);
    }
    chars
}

/// A `String` made of the characters, in order (std's `FromIterator<char>`
/// for `String`): the string holds exactly these characters.
#[verifier::external_body]
pub fn string_from_chars(chars: &[char]) -> (text: String)
    ensures
        text@ == chars@,
{
    chars.iter().collect()
}

/// Appends the characters of a text.
pub fn push_text(out: &mut Vec<char>, text: &str)
    ensures
        final(out)@ == old(out)@ + text@,
{
    let chars = text_chars(text);
    push_chars(out, &chars);
}

/// Appends characters.
pub fn push_chars(out: &mut Vec<char>, chars: &[char])
    ensures
        final(out)@ == old(out)@ + chars@,
{
    let ghost start = out@;
    let mut i: usize = 0;
    while i < chars.len()
        invariant
            0 <= i <= chars@.len(),
            out@ == start + chars@.take(i as int),
        decreases chars@.len() - i,
    {
        out.push(chars[i]);
        proof {
            assert(chars@.take(i + 1) =~= chars@.take(i as int).push(chars@[i as int]));
        }
        i += 1;
    }
    proof {
        assert(chars@.take(chars@.len() as int) =~= chars@);
    }
}

/// Whether two character lists are the same.
pub fn same_chars(a: &[char], b: &[char]) -> (same: bool)
    ensures
        same == (a@ == b@),
{
    if a.len() != b.len() {
        return false;
    }
    let mut i: usize = 0;
    while i < a.len()
        invariant
            a@.len() == b@.len(),
            0 <= i <= a@.len(),
            forall|j: int| 0 <= j < i ==> a@[j] == b@[j],
        decreases a@.len() - i,
    {
        if a[i] != b[i] {
            return false;
        }
        i += 1;
    }
    proof {
        assert(a@ =~= b@);
    }
    true
}

/// Whether the characters spell the text.
pub fn is_word(chars: &[char], word: &str) -> (same: bool)
    ensures
        same == (chars@ == word@),
{
    let w = text_chars(word);
    same_chars(chars, w.as_slice())
}

/// Whether the character is white space (Unicode `White_Space`).
pub open spec fn is_space(c: char) -> bool {
    let n = c as u32;
    ||| 0x09 <= n <= 0x0D
    ||| n == 0x20
    ||| n == 0x85
    ||| n == 0xA0
    ||| n == 0x1680
    ||| 0x2000 <= n <= 0x200A
    ||| n == 0x2028
    ||| n == 0x2029
    ||| n == 0x202F
    ||| n == 0x205F
    ||| n == 0x3000
}

pub fn char_is_space(c: char) -> (b: bool)
    ensures
        b == is_space(c),
{
    let n = c as u32;
    (0x09 <= n && n <= 0x0D) || n == 0x20 || n == 0x85 || n == 0xA0 || n == 0x1680 || (0x2000 <= n && n <= 0x200A)
        || n == 0x2028 || n == 0x2029 || n == 0x202F || n == 0x205F || n == 0x3000
}

/// The character with ASCII capitals made small.
pub open spec fn ascii_lower(c: char) -> char {
    if 'A' <= c <= 'Z' {
        ((c as u32) + 32) as char
    } else {
        c
    }
}

pub fn char_ascii_lower(c: char) -> (lower: char)
    ensures
        lower == ascii_lower(c),
{
    if 'A' <= c && c <= 'Z' {
        let n = (c as u32 + 32) as u8;
        n as char
    } else {
        c
    }
}

/// The characters with ASCII capitals made small.
pub open spec fn lowercase(s: Seq<char>) -> Seq<char> {
    s.map_values(|c: char| ascii_lower(c))
}

/// How many characters the sequence starts with before any white space.
pub open spec fn word_len(s: Seq<char>) -> nat
    decreases s.len(),
{
    if s.len() == 0 || is_space(s[0]) {
        0
    } else {
        1 + word_len(s.drop_first())
    }
}

/// The words of the text, split at runs of white space, in lower case.
pub open spec fn tokenize(s: Seq<char>) -> Seq<Seq<char>>
    decreases s.len(),
{
    if s.len() == 0 {
        Seq::empty()
    } else if is_space(s[0]) {
        tokenize(s.drop_first())
    } else {
        let n = word_len(s);
        if n == 0 {
            Seq::empty()
        } else {
            proof {
                lemma_word_len_bound(s);
            }
            seq![lowercase(s.take(n as int))] + tokenize(s.skip(n as int))
        }
    }
}

pub proof fn lemma_word_len_bound(s: Seq<char>)
    ensures
        word_len(s) <= s.len(),
    decreases s.len(),
{
    if s.len() > 0 && !is_space(s[0]) {
        lemma_word_len_bound(s.drop_first());
    }
}

proof fn lemma_word_len(s: Seq<char>, n: int)
    requires
        0 <= n <= s.len(),
        forall|k: int| 0 <= k < n ==> !is_space(#[trigger] s[k]),
        n == s.len() || is_space(s[n]),
    ensures
        word_len(s) == n,
    decreases n,
{
    if n > 0 {
        assert forall|k: int| 0 <= k < n - 1 implies !is_space(#[trigger] s.drop_first()[k]) by {
            assert(s.drop_first()[k] == s[k + 1]);
        }
        lemma_word_len(s.drop_first(), n - 1);
    }
}

/// The words of a text as character lists.
pub fn tokenize_chars(s: &[char]) -> (tokens: Vec<Vec<char>>)
    ensures
        token_views(tokens@) == tokenize(s@),
{
    let mut tokens: Vec<Vec<char>> = Vec::new();
    let mut i: usize = 0;
    proof {
        assert(s@.skip(0) =~= s@);
        assert(token_views(tokens@) + tokenize(s@) =~= tokenize(s@));
    }
    while i < s.len()
        invariant
            0 <= i <= s@.len(),
            token_views(tokens@) + tokenize(s@.skip(i as int)) == tokenize(s@),
        decreases s@.len() - i,
    {
        if char_is_space(s[i]) {
            proof {
                assert(s@.skip(i as int).drop_first() =~= s@.skip(i + 1));
            }
            i += 1;
        } else {
            let mut word: Vec<char> = Vec::new();
            let mut j: usize = i;
            while j < s.len() && !char_is_space(s[j])
                invariant
                    i <= j <= s@.len(),
                    forall|k: int| i <= k < j ==> !is_space(#[trigger] s@[k]),
                    word@ == lowercase(s@.subrange(i as int, j as int)),
                decreases s@.len() - j,
            {
                word.push(char_ascii_lower(s[j]));
                proof {
                    assert(lowercase(s@.subrange(i as int, j + 1)) =~= lowercase(s@.subrange(i as int, j as int)).push(ascii_lower(s@[j as int])));
                }
                j += 1;
            }
            proof {
                let t = s@.skip(i as int);
                assert forall|k: int| 0 <= k < j - i implies !is_space(#[trigger] t[k]) by {
                    assert(t[k] == s@[i + k]);
                }
                lemma_word_len(t, j - i);
                assert(t.take(j - i) =~= s@.subrange(i as int, j as int));
                assert(t.skip(j - i) =~= s@.skip(j as int));
            }
            let ghost before = token_views(tokens@);
            tokens.push(word);
            proof {
                assert(token_views(tokens@) =~= before.push(lowercase(s@.subrange(i as int, j as int))));
                assert(token_views(tokens@) + tokenize(s@.skip(j as int)) =~= before + (seq![lowercase(s@.subrange(i as int, j as int))] + tokenize(s@.skip(j as int))));
            }
            i = j;
        }
    }
    proof {
        assert(s@.skip(i as int).len() == 0);
        assert(token_views(tokens@) + Seq::<Seq<char>>::empty() =~= token_views(tokens@));
    }
    tokens
}

/// The views of a list of words.
pub open spec fn token_views(tokens: Seq<Vec<char>>) -> Seq<Seq<char>> {
    tokens.map_values(|t: Vec<char>| t@)
}

/// The text without its leading white space.
pub open spec fn trim_start(s: Seq<char>) -> Seq<char>
    decreases s.len(),
{
    if s.len() > 0 && is_space(s[0]) {
        trim_start(s.drop_first())
    } else {
        s
    }
}

/// The text without its trailing white space.
pub open spec fn trim_end(s: Seq<char>) -> Seq<char>
    decreases s.len(),
{
    if s.len() > 0 && is_space(s.last()) {
        trim_end(s.drop_last())
    } else {
        s
    }
}

/// The text without leading and trailing white space.
pub open spec fn trim(s: Seq<char>) -> Seq<char> {
    trim_end(trim_start(s))
}

pub proof fn lemma_trim_start(s: Seq<char>, a: int)
    requires
        0 <= a <= s.len(),
        forall|k: int| 0 <= k < a ==> is_space(#[trigger] s[k]),
        a == s.len() || !is_space(s[a]),
    ensures
        trim_start(s) == s.skip(a),
    decreases a,
{
    if a > 0 {
        assert forall|k: int| 0 <= k < a - 1 implies is_space(#[trigger] s.drop_first()[k]) by {
            assert(s.drop_first()[k] == s[k + 1]);
        }
        lemma_trim_start(s.drop_first(), a - 1);
        assert(s.drop_first().skip(a - 1) =~= s.skip(a));
    } else {
        assert(s.skip(0) =~= s);
    }
}

proof fn lemma_trim_end(s: Seq<char>, b: int)
    requires
        0 <= b <= s.len(),
        forall|k: int| b <= k < s.len() ==> is_space(#[trigger] s[k]),
        b == 0 || !is_space(s[b - 1]),
    ensures
        trim_end(s) == s.take(b),
    decreases s.len() - b,
{
    if b < s.len() {
        assert forall|k: int| b <= k < s.drop_last().len() implies is_space(#[trigger] s.drop_last()[k]) by {
            assert(s.drop_last()[k] == s[k]);
        }
        lemma_trim_end(s.drop_last(), b);
        assert(s.drop_last().take(b) =~= s.take(b));
    } else {
        assert(s.take(b) =~= s);
    }
}

/// The text without leading and trailing white space.
pub fn trim_chars(s: &[char]) -> (trimmed: Vec<char>)
    ensures
        trimmed@ == trim(s@),
{
    let mut a: usize = 0;
    while a < s.len() && char_is_space(s[a])
        invariant
            0 <= a <= s@.len(),
            forall|k: int| 0 <= k < a ==> is_space(#[trigger] s@[k]),
        decreases s@.len() - a,
    {
        a += 1;
    }
    proof {
        lemma_trim_start(s@, a as int);
    }
    let ghost t = s@.skip(a as int);
    let mut b: usize = s.len();
    while b > a && char_is_space(s[b - 1])
        invariant
            a <= b <= s@.len(),
            t == s@.skip(a as int),
            forall|k: int| b <= k < s@.len() ==> is_space(#[trigger] s@[k]),
        decreases b,
    {
        b -= 1;
    }
    proof {
        assert forall|k: int| b - a <= k < t.len() implies is_space(#[trigger] t[k]) by {
            assert(t[k] == s@[a + k]);
        }
        if b > a {
            assert(t[b - a - 1] == s@[b - 1]);
        }
        lemma_trim_end(t, b - a);
        assert(t.take(b - a) =~= s@.subrange(a as int, b as int));
    }
    let mut trimmed: Vec<char> = Vec::new();
    let mut k: usize = a;
    while k < b
        invariant
            a <= k <= b <= s@.len(),
            trimmed@ == s@.subrange(a as int, k as int),
        decreases b - k,
    {
        trimmed.push(s[k]);
        proof {
            assert(s@.subrange(a as int, k + 1) =~= s@.subrange(a as int, k as int).push(s@[k as int]));
        }
        k += 1;
    }
    trimmed
}

proof fn lemma_word_len_stops(s: Seq<char>)
    ensures
        word_len(s) < s.len() ==> is_space(s[word_len(s) as int]),
        forall|k: int| 0 <= k < word_len(s) ==> !is_space(#[trigger] s[k]),
    decreases s.len(),
{
    if s.len() > 0 && !is_space(s[0]) {
        lemma_word_len_stops(s.drop_first());
        lemma_word_len_bound(s.drop_first());
        assert forall|k: int| 0 <= k < word_len(s) implies !is_space(#[trigger] s[k]) by {
            if k > 0 {
                assert(s[k] == s.drop_first()[k - 1]);
            }
        }
    }
}

/// A text has at most one word more than half its length.
pub proof fn lemma_tokenize_len(s: Seq<char>)
    ensures
        2 * tokenize(s).len() <= s.len() + 1,
    decreases s.len(),
{
    if s.len() > 0 {
        if is_space(s[0]) {
            lemma_tokenize_len(s.drop_first());
        } else {
            let n = word_len(s);
            lemma_word_len_bound(s);
            lemma_word_len_stops(s);
            if n > 0 {
                let rest = s.skip(n as int);
                assert(tokenize(s) == seq![lowercase(s.take(n as int))] + tokenize(rest));
                assert(tokenize(s).len() == 1 + tokenize(rest).len());
                if rest.len() > 0 {
                    assert(rest[0] == s[n as int]);
                    lemma_tokenize_len(rest.drop_first());
                    assert(tokenize(rest) == tokenize(rest.drop_first()));
                } else {
                    assert(tokenize(rest).len() == 0);
                }
            }
        }
    }
}

/// The words of the text, split at runs of white space, as written.
pub open spec fn words(s: Seq<char>) -> Seq<Seq<char>>
    decreases s.len(),
{
    if s.len() == 0 {
        Seq::empty()
    } else if is_space(s[0]) {
        words(s.drop_first())
    } else {
        let n = word_len(s);
        if n == 0 {
            Seq::empty()
        } else {
            proof {
                lemma_word_len_bound(s);
            }
            seq![s.take(n as int)] + words(s.skip(n as int))
        }
    }
}

/// Whether a word holds no white space and is its own lower case.
pub open spec fn plain_word(w: Seq<char>) -> bool {
    &&& w.len() > 0
    &&& forall|k: int| 0 <= k < w.len() ==> !is_space(#[trigger] w[k]) && ascii_lower(w[k]) == w[k]
}

/// Words joined by single spaces.
pub open spec fn joined(ws: Seq<Seq<char>>) -> Seq<char>
    decreases ws.len(),
{
    if ws.len() == 0 {
        Seq::empty()
    } else if ws.len() == 1 {
        ws[0]
    } else {
        ws[0] + " "@ + joined(ws.drop_first())
    }
}

proof fn lemma_word_len_append(w: Seq<char>, x: Seq<char>)
    requires
        forall|k: int| 0 <= k < w.len() ==> !is_space(#[trigger] w[k]),
    ensures
        word_len(w + x) == w.len() + word_len(x),
    decreases w.len(),
{
    if w.len() > 0 {
        assert((w + x).drop_first() =~= w.drop_first() + x);
        assert((w + x)[0] == w[0]);
        lemma_word_len_append(w.drop_first(), x);
    } else {
        assert(w + x =~= x);
    }
}

/// Joining one more word puts a space and the word at the end.
pub proof fn lemma_joined_push(ws: Seq<Seq<char>>, w: Seq<char>)
    requires
        ws.len() > 0,
    ensures
        joined(ws.push(w)) =~= joined(ws) + " "@ + w,
    decreases ws.len(),
{
    let longer = ws.push(w);
    assert(longer[0] == ws[0]);
    assert(longer.len() > 1);
    if ws.len() == 1 {
        assert(longer.drop_first() =~= seq![w]);
        assert(joined(seq![w]) == w);
        assert(joined(longer) == ws[0] + " "@ + joined(longer.drop_first()));
    } else {
        assert(longer.drop_first() =~= ws.drop_first().push(w));
        lemma_joined_push(ws.drop_first(), w);
        assert(joined(longer) == ws[0] + " "@ + joined(longer.drop_first()));
        assert(joined(ws) == ws[0] + " "@ + joined(ws.drop_first()));
    }
}

/// Plain words joined by single spaces read back as those words.
pub proof fn lemma_tokenize_joined(ws: Seq<Seq<char>>)
    requires
        forall|i: int| 0 <= i < ws.len() ==> plain_word(#[trigger] ws[i]),
    ensures
        tokenize(joined(ws)) == ws,
    decreases ws.len(),
{
    reveal_strlit(" ");
    if ws.len() == 0 {
        assert(tokenize(joined(ws)) =~= ws);
    } else {
        let w = ws[0];
        assert(plain_word(w));
        let rest_text: Seq<char> = if ws.len() == 1 {
            Seq::empty()
        } else {
            " "@ + joined(ws.drop_first())
        };
        let s = joined(ws);
        assert(s =~= w + rest_text);
        lemma_word_len_append(w, rest_text);
        if ws.len() > 1 {
            assert(rest_text[0] == ' ');
            assert(is_space(' '));
        }
        assert(word_len(rest_text) == 0);
        assert(s[0] == w[0]);
        assert(!is_space(s[0]));
        assert(s.take(w.len() as int) =~= w);
        assert(s.skip(w.len() as int) =~= rest_text);
        assert(lowercase(w) =~= w);
        if ws.len() == 1 {
            assert(tokenize(rest_text) =~= Seq::<Seq<char>>::empty());
            assert(tokenize(s) =~= ws);
        } else {
            let rest = ws.drop_first();
            assert forall|i: int| 0 <= i < rest.len() implies plain_word(#[trigger] rest[i]) by {
                assert(rest[i] == ws[i + 1]);
            }
            lemma_tokenize_joined(rest);
            assert(rest_text.drop_first() =~= joined(rest));
            assert(tokenize(rest_text) == tokenize(joined(rest)));
            assert(tokenize(s) =~= seq![w] + rest);
            assert(ws =~= seq![w] + rest);
        }
    }
}


/// The lower-case words are the words made lower case.
pub proof fn lemma_tokenize_words(s: Seq<char>)
    ensures
        tokenize(s).len() == words(s).len(),
        forall|i: int| 0 <= i < words(s).len() ==> #[trigger] tokenize(s)[i] == lowercase(words(s)[i]),
    decreases s.len(),
{
    if s.len() > 0 {
        if is_space(s[0]) {
            lemma_tokenize_words(s.drop_first());
        } else {
            let n = word_len(s);
            if n > 0 {
                lemma_word_len_bound(s);
                lemma_tokenize_words(s.skip(n as int));
                let t = tokenize(s);
                let w = words(s);
                assert forall|i: int| 0 <= i < w.len() implies #[trigger] t[i] == lowercase(w[i]) by {
                    if i > 0 {
                        assert(t[i] == tokenize(s.skip(n as int))[i - 1]);
                        assert(w[i] == words(s.skip(n as int))[i - 1]);
                    }
                }
            }
        }
    }
}

/// The words of a text as written.
pub fn words_chars(s: &[char]) -> (result: Vec<Vec<char>>)
    ensures
        token_views(result@) == words(s@),
{
    let mut result: Vec<Vec<char>> = Vec::new();
    let mut i: usize = 0;
    proof {
        assert(s@.skip(0) =~= s@);
        assert(token_views(result@) + words(s@) =~= words(s@));
    }
    while i < s.len()
        invariant
            0 <= i <= s@.len(),
            token_views(result@) + words(s@.skip(i as int)) == words(s@),
        decreases s@.len() - i,
    {
        if char_is_space(s[i]) {
            proof {
                assert(s@.skip(i as int).drop_first() =~= s@.skip(i + 1));
            }
            i += 1;
        } else {
            let mut word: Vec<char> = Vec::new();
            let mut j: usize = i;
            while j < s.len() && !char_is_space(s[j])
                invariant
                    i <= j <= s@.len(),
                    forall|k: int| i <= k < j ==> !is_space(#[trigger] s@[k]),
                    word@ == s@.subrange(i as int, j as int),
                decreases s@.len() - j,
            {
                word.push(s[j]);
                proof {
                    assert(s@.subrange(i as int, j + 1) =~= s@.subrange(i as int, j as int).push(s@[j as int]));
                }
                j += 1;
            }
            proof {
                let t = s@.skip(i as int);
                assert forall|k: int| 0 <= k < j - i implies !is_space(#[trigger] t[k]) by {
                    assert(t[k] == s@[i + k]);
                }
                lemma_word_len(t, j - i);
                assert(t.take(j - i) =~= s@.subrange(i as int, j as int));
                assert(t.skip(j - i) =~= s@.skip(j as int));
            }
            let ghost before = token_views(result@);
            result.push(word);
            proof {
                assert(token_views(result@) =~= before.push(s@.subrange(i as int, j as int)));
                assert(token_views(result@) + words(s@.skip(j as int)) =~= before + (seq![s@.subrange(i as int, j as int)] + words(s@.skip(j as int))));
            }
            i = j;
        }
    }
    proof {
        assert(s@.skip(i as int).len() == 0);
        assert(token_views(result@) + Seq::<Seq<char>>::empty() =~= token_views(result@));
    }
    result
}

/// A history line without its `#` comment and surrounding white space, if
/// anything is left.
pub open spec fn history_line_command(line: Seq<char>) -> Option<Seq<char>> {
    let body = match hash_from(line, 0) {
        Some(k) => line.take(k),
        None => line,
    };
    if trim(body).len() == 0 {
        None
    } else {
        Some(trim(body))
    }
}

/// The position of the first `#` at or after index `i`.
pub open spec fn hash_from(s: Seq<char>, i: int) -> Option<int>
    decreases s.len() - i,
{
    if i < 0 || i >= s.len() {
        None
    } else if s[i] == '#' {
        Some(i)
    } else {
        hash_from(s, i + 1)
    }
}

/// A history line's command, if any.
pub fn history_command(line: &[char]) -> (command: Option<Vec<char>>)
    ensures
        match history_line_command(line@) {
            Some(c) => command matches Some(v) && v@ == c,
            None => command is None,
        },
{
    let mut k: usize = 0;
    while k < line.len() && line[k] != '#'
        invariant
            0 <= k <= line@.len(),
            hash_from(line@, 0) == hash_from(line@, k as int),
        decreases line@.len() - k,
    {
        k += 1;
    }
    let mut body: Vec<char> = Vec::new();
    let mut i: usize = 0;
    while i < k
        invariant
            0 <= i <= k <= line@.len(),
            body@ == line@.take(i as int),
        decreases k - i,
    {
        body.push(line[i]);
        proof {
            assert(line@.take(i + 1) =~= line@.take(i as int).push(line@[i as int]));
        }
        i += 1;
    }
    proof {
        if k == line@.len() {
            assert(line@.take(k as int) =~= line@);
        }
    }
    let trimmed = trim_chars(body.as_slice());
    if trimmed.len() == 0 {
        None
    } else {
        Some(trimmed)
    }
}

/// The lines of a text, split at `\n`, with a trailing `\r` removed from each.
pub open spec fn text_lines(s: Seq<char>) -> Seq<Seq<char>>
    decreases s.len(),
{
    if s.len() == 0 {
        Seq::empty()
    } else {
        match newline_from(s, 0) {
            None => seq![strip_cr(s)],
            Some(k) => {
                proof {
                    lemma_newline_from_bound(s, 0);
                }
                seq![strip_cr(s.take(k))] + text_lines(s.skip(k + 1))
            },
        }
    }
}

pub proof fn lemma_newline_from_bound(s: Seq<char>, i: int)
    ensures
        newline_from(s, i) matches Some(k) ==> 0 <= i <= k < s.len() && s[k] == '\n',
    decreases s.len() - i,
{
    if 0 <= i < s.len() && s[i] != '\n' {
        lemma_newline_from_bound(s, i + 1);
    }
}

/// The line without a final carriage return.
pub open spec fn strip_cr(s: Seq<char>) -> Seq<char> {
    if s.len() > 0 && s.last() == '\r' {
        s.drop_last()
    } else {
        s
    }
}

/// The position of the first line feed at or after index `i`.
pub open spec fn newline_from(s: Seq<char>, i: int) -> Option<int>
    decreases s.len() - i,
{
    if i < 0 || i >= s.len() {
        None
    } else if s[i] == '\n' {
        Some(i)
    } else {
        newline_from(s, i + 1)
    }
}

/// The lines of a text (see `text_lines`).
pub fn split_lines(s: &[char]) -> (lines: Vec<Vec<char>>)
    ensures
        token_views(lines@) == text_lines(s@),
{
    let mut lines: Vec<Vec<char>> = Vec::new();
    let mut i: usize = 0;
    proof {
        assert(s@.skip(0) =~= s@);
        assert(token_views(lines@) + text_lines(s@) =~= text_lines(s@));
    }
    while i < s.len()
        invariant
            0 <= i <= s@.len(),
            token_views(lines@) + text_lines(s@.skip(i as int)) == text_lines(s@),
        decreases s@.len() - i,
    {
        let ghost t = s@.skip(i as int);
        let mut k: usize = i;
        while k < s.len() && s[k] != '\n'
            invariant
                i <= k <= s@.len(),
                t == s@.skip(i as int),
                newline_from(t, 0) == newline_from(t, k - i),
            decreases s@.len() - k,
        {
            proof {
                assert(t[k - i] == s@[k as int]);
            }
            k += 1;
        }
        let mut line: Vec<char> = Vec::new();
        let mut j: usize = i;
        while j < k
            invariant
                i <= j <= k <= s@.len(),
                line@ == s@.subrange(i as int, j as int),
            decreases k - j,
        {
            line.push(s[j]);
            proof {
                assert(s@.subrange(i as int, j + 1) =~= s@.subrange(i as int, j as int).push(s@[j as int]));
            }
            j += 1;
        }
        let ghost raw = line@;
        if line.len() > 0 && line[line.len() - 1] == '\r' {
            line.pop();
            proof {
                assert(line@ =~= raw.drop_last());
            }
        }
        let ghost before = token_views(lines@);
        lines.push(line);
        proof {
            assert(token_views(lines@) =~= before.push(strip_cr(raw)));
            if k < s@.len() {
                assert(t[k - i] == '\n');
                assert(newline_from(t, k - i) == Some(k - i));
                assert(t.take(k - i) =~= raw);
                assert(t.skip(k - i + 1) =~= s@.skip(k + 1));
                assert(text_lines(t) == seq![strip_cr(t.take(k - i))] + text_lines(t.skip(k - i + 1)));
                assert(token_views(lines@) + text_lines(s@.skip(k + 1)) =~= before + (seq![strip_cr(raw)] + text_lines(s@.skip(k + 1))));
            } else {
                assert(newline_from(t, k - i) is None);
                assert(t =~= raw);
                assert(s@.skip(k as int).len() == 0);
                assert(text_lines(t) == seq![strip_cr(t)]);
                assert(token_views(lines@) + text_lines(s@.skip(k as int)) =~= before + text_lines(t));
            }
        }
        if k < s.len() {
            i = k + 1;
        } else {
            i = k;
        }
    }
    proof {
        assert(s@.skip(i as int).len() == 0);
        assert(token_views(lines@) + Seq::<Seq<char>>::empty() =~= token_views(lines@));
    }
    lines
}

} // verus!
