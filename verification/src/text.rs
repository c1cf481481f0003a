//! Characters, whitespace trimming, splitting and joining of text.

use vstd::prelude::*;
use vstd::std_specs::iter::IteratorSpec;

verus! {

/// The Unicode `White_Space` property, which `char::is_whitespace` and
/// `str::trim` use.
pub open spec fn is_white_space(c: char) -> bool {
    let u = c as u32;
    ||| 0x09 <= u <= 0x0D
    ||| u == 0x20
    ||| u == 0x85
    ||| u == 0xA0
    ||| u == 0x1680
    ||| 0x2000 <= u <= 0x200A
    ||| u == 0x2028
    ||| u == 0x2029
    ||| u == 0x202F
    ||| u == 0x205F
    ||| u == 0x3000
}

/// Executable test of the `White_Space` property.
pub fn white_space(c: char) -> (b: bool)
    ensures
        b == is_white_space(c),
{
    let u = c as u32;
    (0x09 <= u && u <= 0x0D) || u == 0x20 || u == 0x85 || u == 0xA0 || u == 0x1680 || (0x2000
        <= u && u <= 0x200A) || u == 0x2028 || u == 0x2029 || u == 0x202F || u == 0x205F || u
        == 0x3000
}

/// Appends one character to a string (`String::push`).
#[verifier::external_body]
fn push_char(s: &mut String, c: char)
    ensures
        final(s)@ == old(s)@.push(c),
{
    s.push(c);
}

/// The characters of a string slice, in order.
pub fn chars_of(s: &str) -> (v: Vec<char>)
    ensures
        v@ == s@,
{
    let mut v: Vec<char> = Vec::new();
    let mut it = s.chars();
    broadcast use vstd::string::group_string_axioms;
    loop
        invariant
            s@ == v@ + it.remaining(),
            it.obeys_prophetic_iter_laws(),
            it.decrease() is Some,
        ensures
            s@ == v@,
        decreases it.decrease()->0,
    {
        let next = it.next();
        match next {
            Some(c) => {
                v.push(c);
            },
            None => {
                assert(v@ + it.remaining() =~= v@);
                break;
            },
        }
    }
    v
}

/// A string made of the given characters, in order.
pub fn string_from(cs: &[char]) -> (s: String)
    ensures
        s@ == cs@,
{
    let mut s = String::new();
    let mut i: usize = 0;
    while i < cs.len()
        invariant
            i <= cs@.len(),
            s@ == cs@.take(i as int),
        decreases cs@.len() - i,
    {
        push_char(&mut s, cs[i]);
        assert(cs@.take(i as int).push(cs@[i as int]) =~= cs@.take(i + 1));
        i = i + 1;
    }
    assert(cs@.take(cs@.len() as int) =~= cs@);
    s
}


/// The text with its leading whitespace removed.
pub open spec fn trim_start(s: Seq<char>) -> Seq<char>
    decreases s.len(),
{
    if s.len() > 0 && is_white_space(s[0]) {
        trim_start(s.drop_first())
    } else {
        s
    }
}

/// The text with its trailing whitespace removed.
pub open spec fn trim_end(s: Seq<char>) -> Seq<char>
    decreases s.len(),
{
    if s.len() > 0 && is_white_space(s.last()) {
        trim_end(s.drop_last())
    } else {
        s
    }
}

/// The text with leading and trailing whitespace removed, as `str::trim` does.
pub open spec fn trim(s: Seq<char>) -> Seq<char> {
    trim_end(trim_start(s))
}

/// Neither the first nor the last character of the text is whitespace.
pub open spec fn is_trimmed(s: Seq<char>) -> bool {
    s.len() > 0 ==> !is_white_space(s[0]) && !is_white_space(s.last())
}

/// Bounds of the trimmed part of `cs[lo..hi]`.
pub fn trim_bounds(cs: &[char], lo: usize, hi: usize) -> (r: (usize, usize))
    requires
        lo <= hi <= cs@.len(),
    ensures
        lo <= r.0 <= r.1 <= hi,
        cs@.subrange(r.0 as int, r.1 as int) == trim(cs@.subrange(lo as int, hi as int)),
{
    let mut a = lo;
    while a < hi && white_space(cs[a])
        invariant
            lo <= a <= hi <= cs@.len(),
            trim_start(cs@.subrange(lo as int, hi as int)) == trim_start(
                cs@.subrange(a as int, hi as int),
            ),
        decreases hi - a,
    {
        assert(cs@.subrange(a as int, hi as int).drop_first() =~= cs@.subrange(
            a + 1,
            hi as int,
        ));
        a = a + 1;
    }
    let mut b = hi;
    while b > a && white_space(cs[b - 1])
        invariant
            lo <= a <= b <= hi <= cs@.len(),
            trim_end(cs@.subrange(a as int, hi as int)) == trim_end(
                cs@.subrange(a as int, b as int),
            ),
        decreases b - a,
    {
        assert(cs@.subrange(a as int, b as int).drop_last() =~= cs@.subrange(
            a as int,
            b - 1,
        ));
        b = b - 1;
    }
    (a, b)
}

/// `str::trim`: the text without leading and trailing whitespace.
pub fn trim_text(s: &str) -> (r: String)
    ensures
        r@ == trim(s@),
{
    let cs = chars_of(s);
    let (a, b) = trim_bounds(cs.as_slice(), 0, cs.len());
    assert(cs@.subrange(0, cs@.len() as int) =~= cs@);
    string_from(&cs.as_slice()[a..b])
}

/// The pieces of the text between occurrences of `sep`, as `str::split` with
/// a character pattern yields them: one more piece than there are separators.
pub open spec fn split_on(s: Seq<char>, sep: char) -> Seq<Seq<char>>
    decreases s.len(),
{
    if s.len() == 0 {
        seq![Seq::<char>::empty()]
    } else {
        let pieces = split_on(s.drop_last(), sep);
        if s.last() == sep {
            pieces.push(Seq::<char>::empty())
        } else {
            pieces.update(pieces.len() - 1, pieces.last().push(s.last()))
        }
    }
}

/// The pieces, each trimmed, without those that are empty once trimmed.
pub open spec fn clean_pieces(pieces: Seq<Seq<char>>) -> Seq<Seq<char>>
    decreases pieces.len(),
{
    if pieces.len() == 0 {
        Seq::<Seq<char>>::empty()
    } else {
        let rest = clean_pieces(pieces.drop_last());
        let t = trim(pieces.last());
        if t.len() == 0 {
            rest
        } else {
            rest.push(t)
        }
    }
}

/// The parts written one after the other with `sep` between two neighbours.
pub open spec fn join_with(parts: Seq<Seq<char>>, sep: Seq<char>) -> Seq<char>
    decreases parts.len(),
{
    if parts.len() == 0 {
        Seq::<char>::empty()
    } else if parts.len() == 1 {
        parts[0]
    } else {
        join_with(parts.drop_last(), sep) + sep + parts.last()
    }
}

/// The words of a comma-separated keyword list: each piece trimmed, the
/// empty ones left out.
pub open spec fn query_words(keywords: Seq<char>) -> Seq<Seq<char>> {
    clean_pieces(split_on(keywords, ','))
}

/// The search query for a comma-separated keyword list: its words joined by
/// single spaces.
pub open spec fn search_query(keywords: Seq<char>) -> Seq<char> {
    join_with(query_words(keywords), seq![' '])
}

/// Appends `cs[lo..hi]` to `out`.
fn append_range(out: &mut Vec<char>, cs: &[char], lo: usize, hi: usize)
    requires
        lo <= hi <= cs@.len(),
    ensures
        final(out)@ == old(out)@ + cs@.subrange(lo as int, hi as int),
{
    let mut i = lo;
    while i < hi
        invariant
            lo <= i <= hi <= cs@.len(),
            out@ == old(out)@ + cs@.subrange(lo as int, i as int),
        decreases hi - i,
    {
        out.push(cs[i]);
        assert(cs@.subrange(lo as int, i as int).push(cs@[i as int]) =~= cs@.subrange(
            lo as int,
            i + 1,
        ));
        i = i + 1;
    }
}

/// Adds the trimmed piece `cs[lo..hi]` as one more part of a joined text, if
/// it is not empty. `any` tells whether a part was added before; the result
/// tells whether one has been added now or before.
pub(crate) fn add_clean_piece(
    out: &mut Vec<char>,
    any: bool,
    cs: &[char],
    lo: usize,
    hi: usize,
    sep: &[char],
    Ghost(done): Ghost<Seq<Seq<char>>>,
) -> (now: bool)
    requires
        lo <= hi <= cs@.len(),
        old(out)@ == join_with(clean_pieces(done), sep@),
        any == (clean_pieces(done).len() > 0),
    ensures
        final(out)@ == join_with(clean_pieces(done.push(cs@.subrange(lo as int, hi as int))), sep@),
        now == (clean_pieces(done.push(cs@.subrange(lo as int, hi as int))).len() > 0),
{
    let ghost piece = cs@.subrange(lo as int, hi as int);
    assert(done.push(piece).drop_last() =~= done);
    let (a, b) = trim_bounds(cs, lo, hi);
    if a == b {
        return any;
    }
    let ghost words = clean_pieces(done);
    let ghost w = trim(piece);
    assert(clean_pieces(done.push(piece)) == words.push(w));
    assert(words.push(w).drop_last() =~= words);
    if any {
        append_range(out, sep, 0, sep.len());
        assert(sep@.subrange(0, sep@.len() as int) =~= sep@);
    }
    append_range(out, cs, a, b);
    if !any {
        assert(out@ =~= w);
    }
    true
}

/// The query for a news search: the comma-separated keywords, each trimmed,
/// the empty ones left out, joined by single spaces.
pub fn build_search_query(keywords: &str) -> (query: String)
    ensures
        query@ == search_query(keywords@),
{
    let cs = chars_of(keywords);
    let sep: [char; 1] = [' '];
    let mut out: Vec<char> = Vec::new();
    let mut any = false;
    let mut start: usize = 0;
    let mut i: usize = 0;
    let ghost mut done: Seq<Seq<char>> = Seq::empty();
    assert(cs@.subrange(0, 0) =~= Seq::<char>::empty());
    assert(cs@.take(0).len() == 0);
    assert(split_on(cs@.take(0), ',') =~= done.push(cs@.subrange(0, 0)));
    while i < cs.len()
        invariant
            start <= i <= cs@.len(),
            split_on(cs@.take(i as int), ',') == done.push(cs@.subrange(start as int, i as int)),
            out@ == join_with(clean_pieces(done), sep@),
            any == (clean_pieces(done).len() > 0),
            sep@ == seq![' '],
        decreases cs@.len() - i,
    {
        let ghost prev = cs@.take(i as int);
        assert(cs@.take(i + 1).drop_last() =~= prev);
        if cs[i] == ',' {
            any = add_clean_piece(&mut out, any, cs.as_slice(), start, i, sep.as_slice(), Ghost(done));
            proof {
                done = done.push(cs@.subrange(start as int, i as int));
            }
            assert(cs@.subrange(i + 1, i + 1) =~= Seq::<char>::empty());
            start = i + 1;
        } else {
            let ghost last = cs@.subrange(start as int, i as int);
            assert(last.push(cs@[i as int]) =~= cs@.subrange(start as int, i + 1));
            assert(done.push(last).update(done.len() as int, last.push(cs@[i as int])) =~= done.push(
                cs@.subrange(start as int, i + 1),
            ));
        }
        i = i + 1;
    }
    assert(cs@.take(cs@.len() as int) =~= cs@);
    any = add_clean_piece(&mut out, any, cs.as_slice(), start, cs.len(), sep.as_slice(), Ghost(done));
    string_from(out.as_slice())
}


/// The text without any `c` at its end (`str::trim_end_matches` with a
/// character).
pub open spec fn trim_trailing(s: Seq<char>, c: char) -> Seq<char>
    decreases s.len(),
{
    if s.len() > 0 && s.last() == c {
        trim_trailing(s.drop_last(), c)
    } else {
        s
    }
}

/// The address of an endpoint of a service: its base address without
/// trailing slashes, then the endpoint's path.
pub open spec fn endpoint_url_of(base: Seq<char>, path: Seq<char>) -> Seq<char> {
    trim_trailing(base, '/') + path
}

/// The address of an endpoint of a service: its base address without
/// trailing slashes, then the endpoint's path.
pub fn endpoint_url(base: &str, path: &str) -> (url: String)
    ensures
        url@ == endpoint_url_of(base@, path@),
{
    let cs = chars_of(base);
    let mut b = cs.len();
    assert(cs@.take(cs@.len() as int) =~= cs@);
    while b > 0 && cs[b - 1] == '/'
        invariant
            b <= cs@.len(),
            trim_trailing(cs@, '/') == trim_trailing(cs@.take(b as int), '/'),
        decreases b,
    {
        assert(cs@.take(b as int).drop_last() =~= cs@.take(b - 1));
        b = b - 1;
    }
    let mut url = string_from(&cs.as_slice()[0..b]);
    assert(cs@.subrange(0, b as int) =~= cs@.take(b as int));
    url.append(path);
    url
}


/// No character of the text is `c`.
pub open spec fn lacks(s: Seq<char>, c: char) -> bool {
    forall|i: int| 0 <= i < s.len() ==> s[i] != c
}

/// Trimming the start drops a run of leading whitespace.
pub proof fn lemma_trim_start_skip(s: Seq<char>) -> (k: int)
    ensures
        0 <= k <= s.len(),
        trim_start(s) == s.skip(k),
        k < s.len() ==> !is_white_space(s[k]),
        forall|j: int| 0 <= j < k ==> is_white_space(#[trigger] s[j]),
    decreases s.len(),
{
    if s.len() > 0 && is_white_space(s[0]) {
        let k0 = lemma_trim_start_skip(s.drop_first());
        assert forall|j: int| 0 <= j < k0 + 1 implies is_white_space(#[trigger] s[j]) by {
            if j > 0 {
                assert(s[j] == s.drop_first()[j - 1]);
            }
        }
        assert(s.drop_first().skip(k0) =~= s.skip(k0 + 1));
        k0 + 1
    } else {
        assert(s.skip(0) =~= s);
        0
    }
}

/// Trimming the end drops a run of trailing whitespace.
pub proof fn lemma_trim_end_take(s: Seq<char>) -> (k: int)
    ensures
        0 <= k <= s.len(),
        trim_end(s) == s.take(k),
        k > 0 ==> !is_white_space(s[k - 1]),
        forall|j: int| k <= j < s.len() ==> is_white_space(#[trigger] s[j]),
    decreases s.len(),
{
    if s.len() > 0 && is_white_space(s.last()) {
        let k0 = lemma_trim_end_take(s.drop_last());
        assert(s.drop_last().take(k0) =~= s.take(k0));
        assert forall|j: int| k0 <= j < s.len() implies is_white_space(#[trigger] s[j]) by {
            if j < s.len() - 1 {
                assert(s[j] == s.drop_last()[j]);
            }
        }
        k0
    } else {
        assert(s.take(s.len() as int) =~= s);
        s.len() as int
    }
}

/// The trimmed text is a contiguous part of the text, with no whitespace at
/// either end.
pub proof fn lemma_trim_part(s: Seq<char>) -> (r: (int, int))
    ensures
        0 <= r.0 <= r.1 <= s.len(),
        trim(s) == s.subrange(r.0, r.1),
        is_trimmed(trim(s)),
        forall|j: int| 0 <= j < r.0 ==> is_white_space(#[trigger] s[j]),
        forall|j: int| r.1 <= j < s.len() ==> is_white_space(#[trigger] s[j]),
{
    let a = lemma_trim_start_skip(s);
    let t = s.skip(a);
    let b = lemma_trim_end_take(t);
    assert forall|j: int| a + b <= j < s.len() implies is_white_space(#[trigger] s[j]) by {
        assert(s[j] == t[j - a]);
    }
    assert(t.take(b) =~= s.subrange(a, a + b));
    (a, a + b)
}

/// A text with no whitespace at either end is its own trimmed form.
pub proof fn lemma_trim_of_trimmed(s: Seq<char>)
    requires
        is_trimmed(s),
    ensures
        trim(s) == s,
{
}

/// A text without the separator is a single piece.
pub proof fn lemma_split_single(s: Seq<char>, c: char)
    requires
        lacks(s, c),
    ensures
        split_on(s, c) == seq![s],
    decreases s.len(),
{
    if s.len() > 0 {
        lemma_split_single(s.drop_last(), c);
        assert(s.drop_last().push(s.last()) =~= s);
    } else {
        assert(s =~= Seq::<char>::empty());
    }
}

/// Splitting `a`, the separator, then a text `b` without it: the pieces of
/// `a`, then `b`.
pub proof fn lemma_split_append(a: Seq<char>, b: Seq<char>, c: char)
    requires
        lacks(b, c),
    ensures
        split_on(a + seq![c] + b, c) == split_on(a, c).push(b),
    decreases b.len(),
{
    let s = a + seq![c] + b;
    if b.len() == 0 {
        assert(s.drop_last() =~= a);
        assert(b =~= Seq::<char>::empty());
    } else {
        lemma_split_append(a, b.drop_last(), c);
        assert(s.drop_last() =~= a + seq![c] + b.drop_last());
        assert(b.drop_last().push(b.last()) =~= b);
        assert(split_on(a, c).push(b.drop_last()).update(
            split_on(a, c).len() as int,
            b.drop_last().push(b.last()),
        ) =~= split_on(a, c).push(b));
    }
}

/// No piece of a split holds the separator, and there is at least one piece.
pub proof fn lemma_split_pieces(s: Seq<char>, c: char)
    ensures
        split_on(s, c).len() >= 1,
        forall|i: int| 0 <= i < split_on(s, c).len() ==> lacks(#[trigger] split_on(s, c)[i], c),
    decreases s.len(),
{
    if s.len() > 0 {
        lemma_split_pieces(s.drop_last(), c);
        let p = split_on(s.drop_last(), c);
        if s.last() != c {
            let q = p.update(p.len() - 1, p.last().push(s.last()));
            assert forall|i: int| 0 <= i < q.len() implies lacks(#[trigger] q[i], c) by {
                if i == p.len() - 1 {
                    assert(lacks(p[i], c));
                }
            }
        }
    }
}

/// Each cleaned piece is the trimmed form of a piece: not empty, with no
/// whitespace at either end, and without `c` when no piece holds it.
pub proof fn lemma_clean_pieces(pieces: Seq<Seq<char>>, c: char)
    ensures
        forall|i: int|
            0 <= i < clean_pieces(pieces).len() ==> (#[trigger] clean_pieces(pieces)[i]).len() > 0
                && is_trimmed(clean_pieces(pieces)[i]),
        (forall|j: int| 0 <= j < pieces.len() ==> lacks(#[trigger] pieces[j], c)) ==> forall|i: int|
            0 <= i < clean_pieces(pieces).len() ==> lacks(#[trigger] clean_pieces(pieces)[i], c),
    decreases pieces.len(),
{
    if pieces.len() > 0 {
        let rest = clean_pieces(pieces.drop_last());
        lemma_clean_pieces(pieces.drop_last(), c);
        let p = pieces.last();
        let (a, b) = lemma_trim_part(p);
        let t = trim(p);
        let all = clean_pieces(pieces);
        if t.len() > 0 {
            assert(all == rest.push(t));
            assert forall|i: int| 0 <= i < all.len() implies (#[trigger] all[i]).len() > 0
                && is_trimmed(all[i]) by {
                if i < rest.len() {
                    assert(all[i] == rest[i]);
                }
            }
        } else {
            assert(all == rest);
        }
        if forall|j: int| 0 <= j < pieces.len() ==> lacks(#[trigger] pieces[j], c) {
            assert(lacks(pieces[pieces.len() - 1], c));
            assert forall|j: int| 0 <= j < pieces.drop_last().len() implies lacks(
                #[trigger] pieces.drop_last()[j],
                c,
            ) by {
                assert(pieces.drop_last()[j] == pieces[j]);
            }
            assert(lacks(t, c)) by {
                assert forall|k: int| 0 <= k < t.len() implies t[k] != c by {
                    assert(t[k] == p[a + k]);
                }
            }
            assert forall|i: int| 0 <= i < all.len() implies lacks(#[trigger] all[i], c) by {
                if i < rest.len() {
                    assert(all[i] == rest[i]);
                }
            }
        }
    }
}

/// Joining texts that are not empty and have no whitespace at either end,
/// with a separator: the result has no whitespace at either end, is empty
/// only when there is nothing to join, and lacks `c` when the texts and the
/// separator do.
pub proof fn lemma_join_trimmed(ws: Seq<Seq<char>>, sep: Seq<char>, c: char)
    requires
        forall|i: int| 0 <= i < ws.len() ==> (#[trigger] ws[i]).len() > 0 && is_trimmed(ws[i]),
    ensures
        is_trimmed(join_with(ws, sep)),
        (join_with(ws, sep).len() == 0) == (ws.len() == 0),
        lacks(sep, c) && (forall|i: int| 0 <= i < ws.len() ==> lacks(#[trigger] ws[i], c)) ==> lacks(
            join_with(ws, sep),
            c,
        ),
    decreases ws.len(),
{
    if ws.len() >= 2 {
        let rest = ws.drop_last();
        assert forall|i: int| 0 <= i < rest.len() implies (#[trigger] rest[i]).len() > 0
            && is_trimmed(rest[i]) by {
            assert(rest[i] == ws[i]);
        }
        lemma_join_trimmed(rest, sep, c);
        let j = join_with(rest, sep);
        let w = ws.last();
        assert(ws[ws.len() - 1] == w);
        let all = j + sep + w;
        assert(all[0] == j[0]);
        assert(all.last() == w.last());
        if lacks(sep, c) && (forall|i: int| 0 <= i < ws.len() ==> lacks(#[trigger] ws[i], c)) {
            assert forall|i: int| 0 <= i < rest.len() implies lacks(#[trigger] rest[i], c) by {
                assert(rest[i] == ws[i]);
            }
            assert(lacks(w, c));
            assert forall|i: int| 0 <= i < all.len() implies all[i] != c by {
                if i < j.len() {
                    assert(all[i] == j[i]);
                } else if i < j.len() + sep.len() {
                    assert(all[i] == sep[i - j.len()]);
                } else {
                    assert(all[i] == w[i - j.len() - sep.len()]);
                }
            }
        }
    } else if ws.len() == 1 {
        assert(ws[0].len() > 0);
    }
}

} // verus!
