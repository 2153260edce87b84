//! The query predicates: ASCII-case-insensitive substring search, wildcard
//! matching with `*` and `?`, and the file-name part of a path.

use vstd::prelude::*;
use vstd::string::*;
use crate::item::SearchItem;
use crate::text::{append_chars, lower_char, slice_chars, string_of, to_chars, to_lower_char};

verus! {

/// Whether `needle` occurs in the lower-cased `haystack` at position `k`.
pub open spec fn occurs_at(haystack: Seq<char>, needle: Seq<char>, k: int) -> bool {
    0 <= k && k + needle.len() <= haystack.len() && forall|i: int|
        0 <= i < needle.len() ==> lower_char(#[trigger] haystack[k + i]) == needle[i]
}

/// Whether `needle` occurs somewhere in `haystack` once the haystack's ASCII
/// letters are lower-cased. The needle is taken as it is.
pub open spec fn contains_ci(haystack: Seq<char>, needle: Seq<char>) -> bool {
    exists|k: int| occurs_at(haystack, needle, k)
}

/// Whether the pattern from `pi` on matches the text from `ti` on. In the
/// pattern `*` stands for any run of characters, `?` for any one character,
/// and every other character for itself or its upper-case form.
pub open spec fn wild_at(p: Seq<char>, t: Seq<char>, pi: int, ti: int) -> bool
    decreases p.len() - pi, t.len() - ti,
{
    if pi < 0 || ti < 0 {
        false
    } else if pi >= p.len() {
        ti == t.len()
    } else if p[pi] == '*' {
        wild_at(p, t, pi + 1, ti) || (ti < t.len() && wild_at(p, t, pi, ti + 1))
    } else {
        ti < t.len() && (p[pi] == '?' || p[pi] == lower_char(t[ti])) && wild_at(
            p,
            t,
            pi + 1,
            ti + 1,
        )
    }
}

/// Whether the whole pattern matches the whole text.
pub open spec fn wildcard_matches(pattern: Seq<char>, text: Seq<char>) -> bool {
    wild_at(pattern, text, 0, 0)
}

pub open spec fn is_separator(c: char) -> bool {
    c == '\\' || c == '/'
}

/// The position just behind the last path separator, 0 where there is none.
pub open spec fn name_start(path: Seq<char>) -> int
    decreases path.len(),
{
    if path.len() == 0 {
        0
    } else if is_separator(path.last()) {
        path.len() as int
    } else {
        name_start(path.drop_last())
    }
}

/// The part of a path behind its last `\` or `/`.
pub open spec fn file_name(path: Seq<char>) -> Seq<char> {
    path.skip(name_start(path))
}

pub open spec fn has_wildcard(query: Seq<char>) -> bool {
    query.contains('*') || query.contains('?')
}

/// Whether a query selects a path: by wildcard where the query holds `*` or
/// `?`, by substring otherwise, tried on the file name and on the whole path.
pub open spec fn query_matches(query: Seq<char>, path: Seq<char>) -> bool {
    if has_wildcard(query) {
        wildcard_matches(query, file_name(path)) || wildcard_matches(query, path)
    } else {
        contains_ci(file_name(path), query) || contains_ci(path, query)
    }
}

pub proof fn lemma_name_start(path: Seq<char>)
    ensures
        0 <= name_start(path) <= path.len(),
        name_start(path) > 0 ==> is_separator(path[name_start(path) - 1]),
        forall|k: int| name_start(path) <= k < path.len() ==> !is_separator(#[trigger] path[k]),
    decreases path.len(),
{
    if path.len() > 0 && !is_separator(path.last()) {
        let t = path.drop_last();
        lemma_name_start(t);
        assert forall|k: int| name_start(path) <= k < path.len() implies !is_separator(
            #[trigger] path[k],
        ) by {
            if k < path.len() - 1 {
                assert(path[k] == t[k]);
            }
        }
        if name_start(path) > 0 {
            assert(path[name_start(path) - 1] == t[name_start(t) - 1]);
        }
    }
}

/// Characterises `name_start` by the separator it follows.
pub proof fn lemma_name_start_is(path: Seq<char>, n: int)
    requires
        0 <= n <= path.len(),
        n > 0 ==> is_separator(path[n - 1]),
        forall|k: int| n <= k < path.len() ==> !is_separator(#[trigger] path[k]),
    ensures
        name_start(path) == n,
    decreases path.len(),
{
    if path.len() > 0 {
        if is_separator(path.last()) {
            assert(n == path.len());
        } else {
            let t = path.drop_last();
            assert(n < path.len());
            assert forall|k: int| n <= k < t.len() implies !is_separator(#[trigger] t[k]) by {
                assert(t[k] == path[k]);
            }
            if n > 0 {
                assert(t[n - 1] == path[n - 1]);
            }
            lemma_name_start_is(t, n);
        }
    }
}

/// A `*` in the pattern matches exactly when the rest of the pattern, which
/// starts at `q`, matches some later part of the text.
proof fn lemma_star(p: Seq<char>, t: Seq<char>, pi: int, q: int, ti: int)
    requires
        0 <= pi < p.len(),
        0 <= ti <= t.len(),
        p[pi] == '*',
        q == pi + 1,
    ensures
        wild_at(p, t, pi, ti) <==> exists|k: int|
            ti <= k <= t.len() && #[trigger] wild_at(p, t, q, k),
    decreases t.len() - ti,
{
    if ti < t.len() {
        lemma_star(p, t, pi, q, ti + 1);
        if wild_at(p, t, pi, ti) {
            if wild_at(p, t, q, ti) {
            } else {
                assert(wild_at(p, t, pi, ti + 1));
                let k = choose|k: int| ti + 1 <= k <= t.len() && #[trigger] wild_at(p, t, q, k);
                assert(ti <= k <= t.len() && wild_at(p, t, q, k));
            }
        }
        if exists|k: int| ti <= k <= t.len() && #[trigger] wild_at(p, t, q, k) {
            let k = choose|k: int| ti <= k <= t.len() && #[trigger] wild_at(p, t, q, k);
            if k > ti {
                assert(ti + 1 <= k <= t.len() && wild_at(p, t, q, k));
                assert(wild_at(p, t, pi, ti + 1));
            } else {
                assert(wild_at(p, t, q, ti));
            }
        }
    } else {
        if wild_at(p, t, pi, ti) {
            assert(wild_at(p, t, q, ti));
        }
        if exists|k: int| ti <= k <= t.len() && #[trigger] wild_at(p, t, q, k) {
            let k = choose|k: int| ti <= k <= t.len() && #[trigger] wild_at(p, t, q, k);
            assert(k == ti);
        }
    }
}

/// A match never starts behind the end of the text.
proof fn lemma_bound(p: Seq<char>, t: Seq<char>, pi: int, ti: int)
    requires
        wild_at(p, t, pi, ti),
    ensures
        0 <= ti <= t.len(),
        0 <= pi,
    decreases p.len() - pi,
{
    if pi >= 0 && ti >= 0 && pi < p.len() && p[pi] == '*' && wild_at(p, t, pi + 1, ti) {
        lemma_bound(p, t, pi + 1, ti);
    }
}

/// Across a stretch of the pattern without `*`, a match consumes one text
/// character per pattern character.
proof fn lemma_segment(p: Seq<char>, t: Seq<char>, a: int, b: int, k: int)
    requires
        0 <= a <= b <= p.len(),
        forall|j: int| a <= j < b ==> p[j] != '*',
        wild_at(p, t, a, k),
    ensures
        0 <= k,
        k + (b - a) <= t.len(),
        wild_at(p, t, b, k + (b - a)),
    decreases b - a,
{
    lemma_bound(p, t, a, k);
    if a < b {
        lemma_segment(p, t, a + 1, b, k + 1);
    }
}

/// Whether the pattern from `q` on matches the text from some position
/// behind `from` on.
pub open spec fn later_match(p: Seq<char>, t: Seq<char>, q: int, from: int) -> bool {
    exists|k: int| from < k <= t.len() && #[trigger] wild_at(p, t, q, k)
}

/// Where an earlier `*` could still take a longer run, the attempt that has
/// reached a new `*` succeeds as well.
proof fn lemma_greedy(p: Seq<char>, t: Seq<char>, q: int, star_ti: int, pi: int, ti: int)
    requires
        0 <= q <= pi < p.len(),
        0 <= star_ti <= ti <= t.len(),
        pi - q == ti - star_ti,
        forall|j: int| q <= j < pi ==> p[j] != '*',
        p[pi] == '*',
        later_match(p, t, q, star_ti),
    ensures
        wild_at(p, t, pi, ti),
{
    let k = choose|k: int| star_ti < k <= t.len() && #[trigger] wild_at(p, t, q, k);
    lemma_segment(p, t, q, pi, k);
    let k1 = k + (pi - q);
    lemma_star(p, t, pi, pi + 1, k1);
    let k2 = choose|k2: int| k1 <= k2 <= t.len() && #[trigger] wild_at(p, t, pi + 1, k2);
    lemma_star(p, t, pi, pi + 1, ti);
    assert(ti <= k2 <= t.len() && wild_at(p, t, pi + 1, k2));
}

/// Wildcard matching on character vectors.
pub fn wildcard_chars(p: &Vec<char>, t: &Vec<char>) -> (r: bool)
    ensures
        r == wildcard_matches(p@, t@),
{
    let mut pi: usize = 0;
    let mut ti: usize = 0;
    let mut star: Option<usize> = None;
    let mut star_ti: usize = 0;
    while ti < t.len()
        invariant
            pi <= p.len(),
            star_ti <= ti <= t.len(),
            match star {
                Some(sp) => sp < pi && p[sp as int] == '*' && pi - (sp + 1) == ti - star_ti
                    && forall|j: int| sp < j < pi ==> p[j] != '*',
                None => true,
            },
            wildcard_matches(p@, t@) <==> (wild_at(p@, t@, pi as int, ti as int) || match star {
                Some(sp) => later_match(p@, t@, sp + 1, star_ti as int),
                None => false,
            }),
        decreases t.len() - star_ti, t.len() - ti, p.len() - pi,
    {
        if pi < p.len() && p[pi] == '*' {
            proof {
                lemma_star(p@, t@, pi as int, pi + 1, ti as int);
                match star {
                    Some(sp) => {
                        if later_match(p@, t@, sp + 1, star_ti as int) {
                            lemma_greedy(p@, t@, sp + 1, star_ti as int, pi as int, ti as int);
                        }
                    },
                    None => {},
                }
                if wild_at(p@, t@, pi as int, ti as int) {
                    let k = choose|k: int|
                        ti <= k <= t.len() && #[trigger] wild_at(p@, t@, pi + 1, k);
                    if k > ti {
                        assert(later_match(p@, t@, pi + 1, ti as int));
                    }
                }
                if later_match(p@, t@, pi + 1, ti as int) {
                    let k = choose|k: int|
                        ti < k <= t.len() && #[trigger] wild_at(p@, t@, pi + 1, k);
                    assert(ti <= k <= t.len() && wild_at(p@, t@, pi + 1, k));
                }
            }
            star = Some(pi);
            star_ti = ti;
            pi += 1;
        } else if pi < p.len() && (p[pi] == '?' || p[pi] == to_lower_char(t[ti])) {
            pi += 1;
            ti += 1;
        } else {
            match star {
                Some(sp) => {
                    proof {
                        assert(!wild_at(p@, t@, pi as int, ti as int));
                        if later_match(p@, t@, sp + 1, star_ti as int) {
                            let k = choose|k: int|
                                star_ti < k <= t.len() && #[trigger] wild_at(p@, t@, sp + 1, k);
                            if k > star_ti + 1 {
                                assert(later_match(p@, t@, sp + 1, star_ti + 1));
                            }
                        }
                        if later_match(p@, t@, sp + 1, star_ti + 1) {
                            let k = choose|k: int|
                                star_ti + 1 < k <= t.len() && #[trigger] wild_at(
                                    p@,
                                    t@,
                                    sp + 1,
                                    k,
                                );
                            assert(star_ti < k <= t.len() && wild_at(p@, t@, sp + 1, k));
                        }
                        if wild_at(p@, t@, sp + 1, star_ti + 1) {
                            assert(star_ti < star_ti + 1 <= t.len() && wild_at(
                                p@,
                                t@,
                                sp + 1,
                                star_ti + 1,
                            ));
                        }
                    }
                    pi = sp + 1;
                    star_ti += 1;
                    ti = star_ti;
                },
                None => {
                    assert(!wild_at(p@, t@, pi as int, ti as int));
                    return false;
                },
            }
        }
    }
    proof {
        match star {
            Some(sp) => {
                if later_match(p@, t@, sp + 1, star_ti as int) {
                    let k = choose|k: int|
                        star_ti < k <= t.len() && #[trigger] wild_at(p@, t@, sp + 1, k);
                    lemma_segment(p@, t@, sp + 1, pi as int, k);
                }
            },
            None => {},
        }
    }
    let ghost pi0 = pi;
    while pi < p.len() && p[pi] == '*'
        invariant
            pi <= p.len(),
            ti == t.len(),
            wild_at(p@, t@, pi0 as int, ti as int) == wild_at(p@, t@, pi as int, ti as int),
        decreases p.len() - pi,
    {
        pi += 1;
    }
    pi == p.len()
}

/// The pattern `*` matches every text.
pub proof fn lemma_star_matches_all(text: Seq<char>)
    ensures
        wildcard_matches(seq!['*'], text),
{
    let p = seq!['*'];
    lemma_star(p, text, 0, 1, 0);
    assert(wild_at(p, text, 1, text.len() as int));
}

/// The pattern `?` matches the texts of one character and no others.
pub proof fn lemma_question_mark_matches_one(text: Seq<char>)
    ensures
        wildcard_matches(seq!['?'], text) <==> text.len() == 1,
{
    let p = seq!['?'];
    if text.len() > 0 {
        assert(wild_at(p, text, 0, 0) == wild_at(p, text, 1, 1));
    }
}

/// The pattern `*.rs` matches the texts that end in `.rs`, whatever the
/// case of their letters, and no others.
pub proof fn lemma_extension_pattern(text: Seq<char>)
    ensures
        wildcard_matches(seq!['*', '.', 'r', 's'], text) <==> (text.len() >= 3 && lower_char(
            text[text.len() - 3],
        ) == '.' && lower_char(text[text.len() - 2]) == 'r' && lower_char(text[text.len() - 1])
            == 's'),
{
    let p = seq!['*', '.', 'r', 's'];
    let n = text.len() as int;
    lemma_star(p, text, 0, 1, 0);
    assert forall|k: int| 0 <= k <= n implies (#[trigger] wild_at(p, text, 1, k) <==> (k + 3 == n
        && lower_char(text[k]) == '.' && lower_char(text[k + 1]) == 'r' && lower_char(text[k + 2])
        == 's')) by {
        if k < n {
            assert(wild_at(p, text, 1, k) == ('.' == lower_char(text[k]) && wild_at(
                p,
                text,
                2,
                k + 1,
            )));
            if k + 1 < n {
                assert(wild_at(p, text, 2, k + 1) == ('r' == lower_char(text[k + 1]) && wild_at(
                    p,
                    text,
                    3,
                    k + 2,
                )));
                if k + 2 < n {
                    assert(wild_at(p, text, 3, k + 2) == ('s' == lower_char(text[k + 2])
                        && wild_at(p, text, 4, k + 3)));
                    assert(wild_at(p, text, 4, k + 3) == (k + 3 == n));
                }
            }
        }
    }
    if n >= 3 && lower_char(text[n - 3]) == '.' && lower_char(text[n - 2]) == 'r' && lower_char(
        text[n - 1],
    ) == 's' {
        assert(wild_at(p, text, 1, n - 3));
    }
}

/// A query of one character that is neither `*` nor `?` selects the paths
/// that hold the character, or its upper-case form, anywhere.
pub proof fn lemma_single_char_query(query: Seq<char>, path: Seq<char>)
    requires
        query.len() == 1,
        query[0] != '*',
        query[0] != '?',
    ensures
        query_matches(query, path) <==> exists|i: int|
            0 <= i < path.len() && lower_char(#[trigger] path[i]) == query[0],
{
    assert(!has_wildcard(query)) by {
        if query.contains('*') {
            let i = choose|i: int| 0 <= i < query.len() && query[i] == '*';
        }
        if query.contains('?') {
            let i = choose|i: int| 0 <= i < query.len() && query[i] == '?';
        }
    }
    lemma_name_start(path);
    let name = file_name(path);
    let start = name_start(path);
    if contains_ci(name, query) {
        let k = choose|k: int| occurs_at(name, query, k);
        assert(lower_char(name[k + 0]) == query[0]);
        assert(name[k] == path[start + k]);
        assert(lower_char(path[start + k]) == query[0]);
    }
    if contains_ci(path, query) {
        let k = choose|k: int| occurs_at(path, query, k);
        assert(lower_char(path[k + 0]) == query[0]);
    }
    if exists|i: int| 0 <= i < path.len() && lower_char(#[trigger] path[i]) == query[0] {
        let i = choose|i: int| 0 <= i < path.len() && lower_char(#[trigger] path[i]) == query[0];
        assert(occurs_at(path, query, i)) by {
            assert forall|j: int| 0 <= j < query.len() implies lower_char(
                #[trigger] path[i + j],
            ) == query[j] by {
                assert(j == 0);
            }
        }
    }
}

/// Substring search on character vectors.
pub fn contains_chars(haystack: &Vec<char>, needle: &Vec<char>) -> (r: bool)
    ensures
        r == contains_ci(haystack@, needle@),
{
    let n = needle.len();
    let h = haystack.len();
    if n > h {
        assert forall|k: int| !occurs_at(haystack@, needle@, k) by {}
        return false;
    }
    let mut start: usize = 0;
    while start <= h - n
        invariant
            n <= h,
            h == haystack.len(),
            n == needle.len(),
            start <= h - n + 1,
            forall|k: int| 0 <= k < start ==> !occurs_at(haystack@, needle@, k),
        decreases h - n + 1 - start,
    {
        let mut i: usize = 0;
        let mut ok = true;
        while ok && i < n
            invariant
                n <= h,
                h == haystack.len(),
                n == needle.len(),
                start <= h - n,
                i <= n,
                forall|j: int| 0 <= j < i ==> lower_char(#[trigger] haystack[start + j]) == needle[j],
                !ok ==> !occurs_at(haystack@, needle@, start as int),
            decreases (if ok { 1int } else { 0int }), n - i,
        {
            if to_lower_char(haystack[start + i]) != needle[i] {
                ok = false;
                assert(lower_char(haystack@[start as int + i as int]) != needle@[i as int]);
            } else {
                i += 1;
            }
        }
        if ok {
            assert(occurs_at(haystack@, needle@, start as int));
            return true;
        }
        start += 1;
    }
    assert forall|k: int| !occurs_at(haystack@, needle@, k) by {}
    false
}

/// Whether `haystack`, with its ASCII letters lower-cased, contains
/// `needle_lower_ascii`. An empty needle is contained in every text.
pub fn contains_ascii_case_insensitive(haystack: &str, needle_lower_ascii: &str) -> (r: bool)
    ensures
        r == contains_ci(haystack@, needle_lower_ascii@),
        needle_lower_ascii@.len() == 0 ==> r,
{
    let h = to_chars(haystack);
    let n = to_chars(needle_lower_ascii);
    proof {
        if n@.len() == 0 {
            assert(occurs_at(h@, n@, 0));
        }
    }
    contains_chars(&h, &n)
}

/// Whether `pattern_lower_ascii` matches the whole of `text`, whose ASCII
/// letters are lower-cased first.
pub fn wildcard_match_ascii_insensitive(pattern_lower_ascii: &str, text: &str) -> (r: bool)
    ensures
        r == wildcard_matches(pattern_lower_ascii@, text@),
{
    let p = to_chars(pattern_lower_ascii);
    let t = to_chars(text);
    wildcard_chars(&p, &t)
}

/// The position just behind the last separator of a path.
pub fn name_start_of(path: &Vec<char>) -> (n: usize)
    ensures
        n == name_start(path@),
        n <= path.len(),
{
    let mut n: usize = path.len();
    while n > 0 && !(path[n - 1] == '\\' || path[n - 1] == '/')
        invariant
            n <= path.len(),
            forall|k: int| n <= k < path.len() ==> !is_separator(#[trigger] path[k]),
        decreases n,
    {
        n -= 1;
    }
    proof {
        lemma_name_start_is(path@, n as int);
    }
    n
}

/// The file name of a path: what stands behind its last `\` or `/`, the
/// whole path where it holds neither.
pub fn file_name_from_path(path: &str) -> (name: &str)
    ensures
        name@ == file_name(path@),
{
    let chars = to_chars(path);
    let n = name_start_of(&chars);
    path.substring_char(n, chars.len())
}

pub fn chars_have_wildcard(query: &Vec<char>) -> (r: bool)
    ensures
        r == has_wildcard(query@),
{
    let mut i: usize = 0;
    while i < query.len()
        invariant
            i <= query.len(),
            forall|k: int| 0 <= k < i ==> query[k] != '*' && query[k] != '?',
        decreases query.len() - i,
    {
        if query[i] == '*' || query[i] == '?' {
            return true;
        }
        i += 1;
    }
    false
}

/// The query predicate on character vectors.
pub fn query_matches_chars(query: &Vec<char>, path: &Vec<char>) -> (r: bool)
    ensures
        r == query_matches(query@, path@),
{
    let n = name_start_of(path);
    let name = slice_chars(path, n, path.len());
    if chars_have_wildcard(query) {
        wildcard_chars(query, &name) || wildcard_chars(query, path)
    } else {
        contains_chars(&name, query) || contains_chars(path, query)
    }
}

/// Whether a query selects an item.
pub fn query_matches_item(query: &str, item: &SearchItem) -> (r: bool)
    ensures
        r == query_matches(query@, item@.path),
{
    let q = to_chars(query);
    let p = to_chars(item.path.as_str());
    query_matches_chars(&q, &p)
}

/// A text cut down to `max_chars` characters: unchanged where it is short
/// enough, `...` where `max_chars` is 3 or less, and otherwise its beginning,
/// `...` and its end, the beginning being the shorter where the two differ.
pub open spec fn truncated_middle(input: Seq<char>, max_chars: nat) -> Seq<char> {
    if input.len() <= max_chars {
        input
    } else if max_chars <= 3 {
        seq!['.', '.', '.']
    } else {
        let keep = (max_chars - 3) as int;
        let left = keep / 2;
        let right = keep - left;
        input.take(left) + seq!['.', '.', '.'] + input.skip(input.len() - right)
    }
}

pub fn truncate_middle(input: &str, max_chars: usize) -> (r: String)
    ensures
        r@ == truncated_middle(input@, max_chars as nat),
{
    let chars = to_chars(input);
    let mut dots: Vec<char> = Vec::new();
    dots.push('.');
    dots.push('.');
    dots.push('.');
    assert(dots@ =~= seq!['.', '.', '.']);
    if chars.len() <= max_chars {
        return string_of(&chars);
    }
    if max_chars <= 3 {
        return string_of(&dots);
    }
    let keep = max_chars - 3;
    let left = keep / 2;
    let right = keep - left;
    let mut out = slice_chars(&chars, 0, left);
    append_chars(&mut out, &dots);
    let end = slice_chars(&chars, chars.len() - right, chars.len());
    append_chars(&mut out, &end);
    string_of(&out)
}

} // verus!
