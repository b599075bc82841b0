use vstd::prelude::*;

use crate::platform::Platform;

verus! {

/// `s` with every occurrence of `from` replaced by `to`.
pub open spec fn replaced(s: Seq<char>, from: char, to: Seq<char>) -> Seq<char>
    decreases s.len(),
{
    if s.len() == 0 {
        seq![]
    } else {
        replaced(s.drop_last(), from, to) + (if s.last() == from {
            to
        } else {
            seq![s.last()]
        })
    }
}

/// Index of the last occurrence of `c` in `s`, or -1 when there is none.
pub open spec fn last_index_of(s: Seq<char>, c: char) -> int
    decreases s.len(),
{
    if s.len() == 0 {
        -1
    } else if s.last() == c {
        s.len() - 1
    } else {
        last_index_of(s.drop_last(), c)
    }
}

/// What comes before the last `c` of `s` (empty when `s` holds no `c`).
pub open spec fn before_last(s: Seq<char>, c: char) -> Seq<char> {
    if last_index_of(s, c) < 0 {
        seq![]
    } else {
        s.subrange(0, last_index_of(s, c))
    }
}

/// What comes after the last `c` of `s` (all of `s` when it holds no `c`).
pub open spec fn after_last(s: Seq<char>, c: char) -> Seq<char> {
    s.subrange(last_index_of(s, c) + 1, s.len() as int)
}

/// The marker inserted before the extension of an automatically named output.
pub open spec fn name_suffix(invert: bool) -> Seq<char> {
    if invert {
        "_inverted_lecturecut"@
    } else {
        "_lecturecut"@
    }
}

/// The output path derived from an input path: backslashes become slashes,
/// the path splits at its last slash into directory and base name, the base
/// name splits at its last dot into stem and extension, and the marker goes
/// between stem and extension.
pub open spec fn automatic_path(file: Seq<char>, invert: bool) -> Seq<char> {
    let f = replaced(file, '\\', seq!['/']);
    let dir = before_last(f, '/');
    let base = after_last(f, '/');
    let new_name = before_last(base, '.') + name_suffix(invert) + seq!['.'] + after_last(base, '.');
    if last_index_of(f, '/') >= 0 {
        dir + seq!['/'] + new_name
    } else {
        new_name
    }
}

pub proof fn lemma_last_index_bounds(s: Seq<char>, c: char)
    ensures
        -1 <= last_index_of(s, c) < s.len(),
        last_index_of(s, c) >= 0 ==> s[last_index_of(s, c)] == c,
        forall|j: int| last_index_of(s, c) < j < s.len() ==> s[j] != c,
    decreases s.len(),
{
    if s.len() > 0 && s.last() != c {
        lemma_last_index_bounds(s.drop_last(), c);
        assert forall|j: int| last_index_of(s, c) < j < s.len() implies s[j] != c by {
            if j < s.len() - 1 {
                assert(s[j] == s.drop_last()[j]);
            }
        }
    }
}

/// A path whose automatic name can be undone: it holds no backslash and its
/// base name has an extension.
pub open spec fn is_plain_media_path(file: Seq<char>) -> bool {
    &&& forall|i: int| 0 <= i < file.len() ==> file[i] != '\\'
    &&& last_index_of(after_last(file, '/'), '.') >= 0
}

/// `p` with the marker removed from right before its last dot.
pub open spec fn strip_name_suffix(p: Seq<char>, invert: bool) -> Seq<char> {
    let k = last_index_of(p, '.');
    p.subrange(0, k - name_suffix(invert).len()) + p.subrange(k, p.len() as int)
}

proof fn lemma_last_index_at(s: Seq<char>, c: char, k: int)
    requires
        0 <= k < s.len(),
        s[k] == c,
        forall|j: int| k < j < s.len() ==> s[j] != c,
    ensures
        last_index_of(s, c) == k,
    decreases s.len(),
{
    if s.last() != c {
        assert forall|j: int| k < j < s.drop_last().len() implies s.drop_last()[j] != c by {
            assert(s.drop_last()[j] == s[j]);
        }
        lemma_last_index_at(s.drop_last(), c, k);
    }
}

proof fn lemma_split_last(s: Seq<char>, c: char)
    ensures
        last_index_of(s, c) >= 0 ==> s =~= before_last(s, c) + seq![c] + after_last(s, c),
        last_index_of(s, c) < 0 ==> s =~= after_last(s, c),
        forall|j: int| 0 <= j < after_last(s, c).len() ==> after_last(s, c)[j] != c,
{
    lemma_last_index_bounds(s, c);
    let k = last_index_of(s, c);
    assert forall|j: int| 0 <= j < after_last(s, c).len() implies after_last(s, c)[j] != c by {
        assert(after_last(s, c)[j] == s[k + 1 + j]);
    }
}

proof fn lemma_replaced_absent(s: Seq<char>, from: char, to: Seq<char>)
    requires
        forall|i: int| 0 <= i < s.len() ==> s[i] != from,
    ensures
        replaced(s, from, to) == s,
    decreases s.len(),
{
    if s.len() > 0 {
        assert forall|i: int| 0 <= i < s.drop_last().len() implies s.drop_last()[i] != from by {
            assert(s.drop_last()[i] == s[i]);
        }
        lemma_replaced_absent(s.drop_last(), from, to);
        assert(s.drop_last() + seq![s.last()] =~= s);
    }
}

/// Removing the marker from an automatic name gives back the path it was
/// made from.
pub proof fn lemma_automatic_path_round_trip(file: Seq<char>, invert: bool)
    requires
        is_plain_media_path(file),
    ensures
        strip_name_suffix(automatic_path(file, invert), invert) == file,
{
    lemma_replaced_absent(file, '\\', seq!['/']);
    let dir = before_last(file, '/');
    let base = after_last(file, '/');
    let stem = before_last(base, '.');
    let ext = after_last(base, '.');
    let suf = name_suffix(invert);
    lemma_split_last(file, '/');
    lemma_split_last(base, '.');
    lemma_last_index_bounds(file, '/');
    let prefix = if last_index_of(file, '/') >= 0 {
        dir + seq!['/']
    } else {
        seq![]
    };
    assert(file =~= prefix + stem + seq!['.'] + ext);
    let r = automatic_path(file, invert);
    assert(r =~= prefix + stem + suf + seq!['.'] + ext);
    let k = (prefix + stem + suf).len() as int;
    lemma_last_index_at(r, '.', k);
    assert(r.subrange(0, k - suf.len()) =~= prefix + stem);
    assert(r.subrange(k, r.len() as int) =~= seq!['.'] + ext);
}

/// Two paths that can be undone never get the same automatic name.
pub proof fn lemma_automatic_path_injective(a: Seq<char>, b: Seq<char>, invert: bool)
    requires
        is_plain_media_path(a),
        is_plain_media_path(b),
        automatic_path(a, invert) == automatic_path(b, invert),
    ensures
        a == b,
{
    lemma_automatic_path_round_trip(a, invert);
    lemma_automatic_path_round_trip(b, invert);
}

/// `s` with each occurrence of `from` replaced by `to`.
pub(crate) fn replace_char(s: &str, from: char, to: &str) -> (r: String)
    ensures
        r@ == replaced(s@, from, to@),
{
    let n = s.unicode_len();
    let mut r = String::new();
    let mut i: usize = 0;
    while i < n
        invariant
            n == s@.len(),
            i <= n,
            r@ == replaced(s@.subrange(0, i as int), from, to@),
        decreases n - i,
    {
        let piece = if s.get_char(i) == from {
            to
        } else {
            s.substring_char(i, i + 1)
        };
        assert(s@.subrange(0, i + 1).drop_last() =~= s@.subrange(0, i as int));
        assert(s@.subrange(i as int, i + 1) =~= seq![s@[i as int]]);
        r = r.concat(piece);
        i = i + 1;
    }
    assert(s@.subrange(0, n as int) =~= s@);
    r
}

/// Index of the last `c` in `s`.
fn find_last(s: &str, c: char) -> (r: Option<usize>)
    ensures
        match r {
            Some(i) => i == last_index_of(s@, c),
            None => last_index_of(s@, c) == -1,
        },
{
    let n = s.unicode_len();
    let mut i: usize = n;
    assert(s@.subrange(0, n as int) =~= s@);
    while i > 0
        invariant
            i <= n,
            n == s@.len(),
            last_index_of(s@, c) == last_index_of(s@.subrange(0, i as int), c),
        decreases i,
    {
        let ch = s.get_char(i - 1);
        assert(s@.subrange(0, i as int).drop_last() =~= s@.subrange(0, i - 1));
        if ch == c {
            return Some(i - 1);
        }
        i = i - 1;
    }
    None
}

/// Splits `s` at its last `c` into what comes before and what comes after,
/// and tells whether `s` holds a `c` at all.
fn split_last<'a>(s: &'a str, c: char) -> (r: (&'a str, &'a str, bool))
    ensures
        r.0@ == before_last(s@, c),
        r.1@ == after_last(s@, c),
        r.2 == (last_index_of(s@, c) >= 0),
{
    proof {
        lemma_last_index_bounds(s@, c);
    }
    let n = s.unicode_len();
    match find_last(s, c) {
        Some(k) => (s.substring_char(0, k), s.substring_char(k + 1, n), true),
        None => (s.substring_char(0, 0), s.substring_char(0, n), false),
    }
}

/// The output path for `file` when none was given: the marker
/// `_lecturecut` (or `_inverted_lecturecut` when inverting) goes right before
/// the extension. The directory part, a root `/` included, is kept and
/// joined with `/`.
pub fn get_automatic_path(file: &str, invert: bool) -> (r: String)
    ensures
        r@ == automatic_path(file@, invert),
{
    let suffix = if invert {
        "_inverted_lecturecut"
    } else {
        "_lecturecut"
    };
    let f = replace_char(file, '\\', "/");
    proof {
        reveal_strlit("/");
        reveal_strlit(".");
        assert("/"@ =~= seq!['/']);
        assert("."@ =~= seq!['.']);
    }
    let (dir, base, has_dir) = split_last(f.as_str(), '/');
    let (stem, ext, _) = split_last(base, '.');
    let new_name = String::from_str(stem).concat(suffix).concat(".").concat(ext);
    if has_dir {
        String::from_str(dir).concat("/").concat(new_name.as_str())
    } else {
        new_name
    }
}

/// `path` written with the platform's separator: on Windows every slash
/// becomes a backslash, elsewhere the path is kept.
pub open spec fn native_path(path: Seq<char>, platform: Platform) -> Seq<char> {
    if platform == Platform::Windows {
        replaced(path, '/', seq!['\\'])
    } else {
        path
    }
}

/// The automatic output path for `file`, written with the platform's
/// separator.
pub fn get_platform_automatic_path(file: &str, invert: bool, platform: Platform) -> (r: String)
    ensures
        r@ == native_path(automatic_path(file@, invert), platform),
{
    let p = get_automatic_path(file, invert);
    if platform == Platform::Windows {
        proof {
            reveal_strlit("\\");
            assert("\\"@ =~= seq!['\\']);
        }
        replace_char(p.as_str(), '/', "\\")
    } else {
        p
    }
}

/// `dir` and `name` joined into one path: `name` alone when `dir` is empty,
/// no separator added when `dir` already ends with one.
pub open spec fn joined(dir: Seq<char>, name: Seq<char>, platform: Platform) -> Seq<char> {
    if dir.len() == 0 {
        name
    } else if platform.is_separator_spec(dir.last()) {
        dir + name
    } else {
        dir + seq![platform.separator_spec()] + name
    }
}

pub fn join_path(dir: &str, name: &str, platform: Platform) -> (r: String)
    ensures
        r@ == joined(dir@, name@, platform),
{
    let n = dir.unicode_len();
    if n == 0 {
        return String::from_str(name);
    }
    let last = dir.get_char(n - 1);
    if last == '/' || last == platform.separator() {
        String::from_str(dir).concat(name)
    } else if platform == Platform::Windows {
        proof {
            reveal_strlit("\\");
            assert(dir@ + "\\"@ + name@ =~= dir@ + seq!['\\'] + name@);
        }
        String::from_str(dir).concat("\\").concat(name)
    } else {
        proof {
            reveal_strlit("/");
            assert(dir@ + "/"@ + name@ =~= dir@ + seq!['/'] + name@);
        }
        String::from_str(dir).concat("/").concat(name)
    }
}

/// The text of a terminal hyperlink: `text` shown, `link` as its target.
pub open spec fn clickable_link(text: Seq<char>, link: Seq<char>) -> Seq<char> {
    "\x1b]8;;"@ + link + "\x1b\\"@ + text + "\x1b]8;;\x1b\\"@
}

/// `text` wrapped in the escape sequences that make a terminal show it as a
/// link to `link`.
pub fn make_clickable_link(text: &str, link: &str) -> (r: String)
    ensures
        r@ == clickable_link(text@, link@),
{
    String::from_str("\x1b]8;;").concat(link).concat("\x1b\\").concat(text).concat("\x1b]8;;\x1b\\")
}

} // verus!
