//! The textual span heuristic for declarations whose AST span is not used.
use crate::text::char_vec;
use vstd::prelude::*;

verus! {

/// The first index at or after `i` where `needle` occurs in `s`.
pub open spec fn find_from(s: Seq<char>, needle: Seq<char>, i: nat) -> Option<nat>
    decreases s.len() + 1 - i,
{
    if i + needle.len() > s.len() {
        None
    } else if s.subrange(i as int, (i + needle.len()) as int) == needle {
        Some(i)
    } else {
        find_from(s, needle, i + 1)
    }
}

/// The number of occurrences of `c` in `s`.
pub open spec fn count_char(s: Seq<char>, c: char) -> nat
    decreases s.len(),
{
    if s.len() == 0 {
        0
    } else {
        count_char(s.drop_last(), c) + if s.last() == c {
            1nat
        } else {
            0nat
        }
    }
}

/// The index of the `}` that balances the braces counted from `i` on, with
/// `depth` braces open before `i`.
pub open spec fn close_from(s: Seq<char>, i: nat, depth: int) -> Option<nat>
    decreases s.len() + 1 - i,
{
    if i >= s.len() {
        None
    } else if s[i as int] == '{' {
        close_from(s, i + 1, depth + 1)
    } else if s[i as int] == '}' {
        if depth - 1 == 0 {
            Some(i)
        } else {
            close_from(s, i + 1, depth - 1)
        }
    } else {
        close_from(s, i + 1, depth)
    }
}

/// A fragment `frag` that starts on line `start`: its first and last lines
/// and its text.
pub open spec fn span_of(start: nat, frag: Seq<char>) -> (nat, nat, Seq<char>) {
    (start, start + count_char(frag, '\n'), frag)
}

/// Where the declaration `keyword ident` stands in `content`: its first line,
/// its last line and its text. The declaration starts at the first occurrence
/// of `keyword ident`; it ends at the first `;` where that comes before any
/// `{`, else at the `}` that balances the first `{`. Where the text does not
/// occur the result is `(1, 1, "")`; where no end is found, the start line,
/// line 1 and `""`.
pub open spec fn located(content: Seq<char>, ident: Seq<char>, keyword: Seq<char>) -> (
    nat,
    nat,
    Seq<char>,
) {
    match find_from(content, keyword + " "@ + ident, 0) {
        None => (1, 1, Seq::empty()),
        Some(pos) => {
            let start = 1 + count_char(content.take(pos as int), '\n');
            let rest = content.skip(pos as int);
            let semi = find_from(rest, seq![';'], 0);
            let brace = find_from(rest, seq!['{'], 0);
            if semi is Some && (brace is None || semi->0 < brace->0) {
                span_of(start, rest.take((semi->0 + 1) as int))
            } else {
                match brace {
                    None => (start, 1, Seq::empty()),
                    Some(b) => match close_from(rest, b, 0) {
                        Some(e) => span_of(start, rest.take((e + 1) as int)),
                        None => (start, 1, Seq::empty()),
                    },
                }
            }
        },
    }
}

proof fn lemma_find_from_bounds(s: Seq<char>, needle: Seq<char>, i: nat)
    ensures
        find_from(s, needle, i) matches Some(k) ==> i <= k && k + needle.len() <= s.len()
            && s.subrange(k as int, (k + needle.len()) as int) == needle,
    decreases s.len() + 1 - i,
{
    if i + needle.len() <= s.len() && s.subrange(i as int, (i + needle.len()) as int) != needle {
        lemma_find_from_bounds(s, needle, i + 1);
    }
}

proof fn lemma_close_from_bounds(s: Seq<char>, i: nat, depth: int)
    ensures
        close_from(s, i, depth) matches Some(k) ==> i <= k < s.len() && s[k as int] == '}',
    decreases s.len() + 1 - i,
{
    if i < s.len() {
        lemma_close_from_bounds(s, i + 1, depth + 1);
        lemma_close_from_bounds(s, i + 1, depth - 1);
        lemma_close_from_bounds(s, i + 1, depth);
    }
}

proof fn lemma_count_bound(s: Seq<char>, c: char)
    ensures
        count_char(s, c) <= s.len(),
        s.len() > 0 && s.last() != c ==> count_char(s, c) < s.len(),
    decreases s.len(),
{
    if s.len() > 0 {
        lemma_count_bound(s.drop_last(), c);
    }
}

fn matches_at(hay: &Vec<char>, needle: &Vec<char>, i: usize) -> (r: bool)
    requires
        i + needle@.len() <= hay@.len(),
    ensures
        r == (hay@.subrange(i as int, i + needle@.len()) == needle@),
{
    let hay_len = hay.len();
    let mut j: usize = 0;
    while j < needle.len()
        invariant
            hay_len == hay@.len(),
            i + needle@.len() <= hay@.len(),
            j <= needle@.len(),
            forall|k: int| 0 <= k < j ==> hay@[i + k] == needle@[k],
        decreases needle@.len() - j,
    {
        if hay[i + j] != needle[j] {
            assert(hay@.subrange(i as int, i + needle@.len())[j as int] != needle@[j as int]);
            return false;
        }
        j = j + 1;
    }
    assert(hay@.subrange(i as int, i + needle@.len()) =~= needle@);
    true
}

/// The first index at or after `from` where `needle` occurs in `hay`.
fn find_chars(hay: &Vec<char>, needle: &Vec<char>, from: usize) -> (r: Option<usize>)
    ensures
        r matches Some(k) ==> find_from(hay@, needle@, from as nat) == Some(k as nat),
        r is None ==> find_from(hay@, needle@, from as nat) is None,
{
    let mut i: usize = from;
    if hay.len() < needle.len() {
        return None;
    }
    let last = hay.len() - needle.len();
    while i <= last
        invariant
            from <= i,
            last == hay@.len() - needle@.len(),
            find_from(hay@, needle@, from as nat) == find_from(hay@, needle@, i as nat),
        decreases hay@.len() - i,
    {
        if matches_at(hay, needle, i) {
            return Some(i);
        }
        if i == last {
            assert(find_from(hay@, needle@, (i + 1) as nat) is None);
            return None;
        }
        i = i + 1;
    }
    None
}

/// The occurrences of `c` in `v[from..to]`.
fn count_in(v: &Vec<char>, from: usize, to: usize, c: char) -> (r: usize)
    requires
        from <= to <= v@.len(),
    ensures
        r == count_char(v@.subrange(from as int, to as int), c),
{
    let mut n: usize = 0;
    let mut i: usize = from;
    while i < to
        invariant
            from <= i <= to <= v@.len(),
            n == count_char(v@.subrange(from as int, i as int), c),
            n <= i - from,
        decreases to - i,
    {
        assert(v@.subrange(from as int, i + 1).drop_last() =~= v@.subrange(from as int, i as int));
        if v[i] == c {
            n = n + 1;
        }
        i = i + 1;
    }
    n
}

/// The characters `v[from..to]`.
fn copy_range(v: &Vec<char>, from: usize, to: usize) -> (r: Vec<char>)
    requires
        from <= to <= v@.len(),
    ensures
        r@ == v@.subrange(from as int, to as int),
{
    let mut out: Vec<char> = Vec::new();
    let mut i: usize = from;
    while i < to
        invariant
            from <= i <= to <= v@.len(),
            out@ == v@.subrange(from as int, i as int),
        decreases to - i,
    {
        out.push(v[i]);
        assert(out@ =~= v@.subrange(from as int, i + 1));
        i = i + 1;
    }
    out
}

/// The index of the `}` that balances the `{` at `b`.
fn close_brace(s: &Vec<char>, b: usize) -> (r: Option<usize>)
    requires
        b < s@.len(),
        s@[b as int] == '{',
    ensures
        r matches Some(k) ==> close_from(s@, b as nat, 0) == Some(k as nat),
        r is None ==> close_from(s@, b as nat, 0) is None,
{
    let len = s.len();
    let mut depth: usize = 1;
    let mut i: usize = b + 1;
    while i < s.len()
        invariant
            b < i <= s@.len(),
            1 <= depth <= i - b,
            close_from(s@, b as nat, 0) == close_from(s@, i as nat, depth as int),
        decreases s@.len() - i,
    {
        let c = s[i];
        if c == '{' {
            depth = depth + 1;
        } else if c == '}' {
            if depth == 1 {
                return Some(i);
            }
            depth = depth - 1;
        }
        i = i + 1;
    }
    None
}

/// The string of the characters `v[from..to]`.
fn text_of_range(v: &Vec<char>, from: usize, to: usize) -> (r: String)
    requires
        from <= to <= v@.len(),
    ensures
        r@ == v@.subrange(from as int, to as int),
{
    let part = copy_range(v, from, to);
    crate::analyzer::util::string_of_chars(&part)
}

/// Locates the declaration `keyword ident` in `content` by its text (see
/// `located`): its first line, last line and text.
pub fn locate_item_text(content: &str, ident: &str, keyword: &str) -> (r: (usize, usize, String))
    ensures
        (r.0 as nat, r.1 as nat, r.2@) == located(content@, ident@, keyword@),
{
    let chars = char_vec(content);
    let mut needle = char_vec(keyword);
    needle.push(' ');
    let mut ident_chars = char_vec(ident);
    needle.append(&mut ident_chars);
    proof {
        reveal_strlit(" ");
        assert(needle@ =~= keyword@ + " "@ + ident@);
    }
    let pos = match find_chars(&chars, &needle, 0) {
        None => {
            return (1, 1, String::new());
        },
        Some(p) => p,
    };
    proof {
        lemma_find_from_bounds(chars@, needle@, 0);
    }
    let before = count_in(&chars, 0, pos, '\n');
    proof {
        lemma_count_bound(chars@.take(pos as int), '\n');
        assert(chars@.subrange(0, pos as int) =~= chars@.take(pos as int));
    }
    let n_chars = chars.len();
    assert(needle@.len() >= 1);
    assert(pos < n_chars);
    let start_line = 1 + before;
    let rest = copy_range(&chars, pos, chars.len());
    let ghost rest_view = chars@.skip(pos as int);
    assert(rest@ =~= rest_view);
    let semi_vec = vec![';'];
    let brace_vec = vec!['{'];
    assert(semi_vec@ =~= seq![';']);
    assert(brace_vec@ =~= seq!['{']);
    let semi = find_chars(&rest, &semi_vec, 0);
    let brace = find_chars(&rest, &brace_vec, 0);
    proof {
        lemma_find_from_bounds(rest@, seq![';'], 0);
        lemma_find_from_bounds(rest@, seq!['{'], 0);
    }
    let end_at: Option<usize> = match semi {
        Some(sc) => {
            let semi_first = match brace {
                None => true,
                Some(b) => sc < b,
            };
            if semi_first {
                proof {
                    assert(rest@.subrange(sc as int, sc + 1)[0] == ';');
                }
                Some(sc)
            } else {
                match brace {
                    None => None,
                    Some(b) => {
                        assert(rest@.subrange(b as int, b + 1)[0] == '{');
                        close_brace(&rest, b)
                    },
                }
            }
        },
        None => match brace {
            None => None,
            Some(b) => {
                assert(rest@.subrange(b as int, b + 1)[0] == '{');
                close_brace(&rest, b)
            },
        },
    };
    match end_at {
        None => (start_line, 1, String::new()),
        Some(e) => {
            proof {
                match brace {
                    Some(b) => lemma_close_from_bounds(rest@, b as nat, 0),
                    None => {},
                }
            }
            assert(e < rest@.len());
            assert(rest@[e as int] == ';' || rest@[e as int] == '}');
            let inside = count_in(&rest, 0, e + 1, '\n');
            proof {
                let frag = rest@.subrange(0, e + 1);
                assert(frag.last() == rest@[e as int]);
                lemma_count_bound(frag, '\n');
                assert(frag =~= rest@.take(e + 1));
            }
            let text = text_of_range(&rest, 0, e + 1);
            (start_line, start_line + inside, text)
        },
    }
}

/// The located text is never a garbled fragment: where neither the keyword
/// nor the name holds a `;` or a `{`, the text is empty, or it is the piece of
/// `content` that starts at an occurrence of `keyword ident` and ends at a `;`
/// or a `}`, with its last line counted from its first.
pub proof fn lemma_located_text_is_whole(content: Seq<char>, ident: Seq<char>, keyword: Seq<char>)
    requires
        !(keyword + " "@ + ident).contains(';'),
        !(keyword + " "@ + ident).contains('{'),
    ensures
        ({
            let (start, end, text) = located(content, ident, keyword);
            let needle = keyword + " "@ + ident;
            text.len() == 0 || exists|pos: int|
                0 <= pos && pos + text.len() <= content.len() && text == #[trigger] content.subrange(
                    pos,
                    pos + text.len(),
                ) && text.len() >= needle.len() && text.take(needle.len() as int) == needle && (
                text.last() == ';' || text.last() == '}') && end == start + count_char(text, '\n')
        }),
{
    let needle = keyword + " "@ + ident;
    lemma_find_from_bounds(content, needle, 0);
    match find_from(content, needle, 0) {
        None => {},
        Some(pos) => {
            let rest = content.skip(pos as int);
            assert(rest.take(needle.len() as int) =~= needle);
            lemma_find_from_bounds(rest, seq![';'], 0);
            lemma_find_from_bounds(rest, seq!['{'], 0);
            let semi = find_from(rest, seq![';'], 0);
            let brace = find_from(rest, seq!['{'], 0);
            let text = located(content, ident, keyword).2;
            if semi is Some && (brace is None || semi->0 < brace->0) {
                let e = semi->0;
                assert(rest.subrange(e as int, (e + 1) as int)[0] == ';');
                if e < needle.len() {
                    assert(needle[e as int] == rest[e as int]);
                    assert(needle.contains(';'));
                }
                assert(text =~= content.subrange(pos as int, (pos + text.len()) as int));
                assert(text.take(needle.len() as int) =~= needle);
                assert(content.subrange(pos as int, (pos + text.len()) as int) == text);
            } else {
                match brace {
                    None => {},
                    Some(b) => {
                        assert(rest.subrange(b as int, (b + 1) as int)[0] == '{');
                        if b < needle.len() {
                            assert(needle[b as int] == rest[b as int]);
                            assert(needle.contains('{'));
                        }
                        lemma_close_from_bounds(rest, b, 0);
                        match close_from(rest, b, 0) {
                            Some(e) => {
                                assert(text =~= content.subrange(pos as int, (pos + text.len()) as int));
                                assert(text.take(needle.len() as int) =~= needle);
                                assert(content.subrange(pos as int, (pos + text.len()) as int) == text);
                            },
                            None => {},
                        }
                    },
                }
            }
        },
    }
}

} // verus!
