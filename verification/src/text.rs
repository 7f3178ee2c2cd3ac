//! Character-level text utilities: splitting, trimming, searching and
//! decimal rendering, each specified over `Seq<char>`.
use vstd::prelude::*;

verus! {

/// Appends one character to a `String` (`String::push`).
/// Trusted: the new contents are the old contents followed by `c`.
#[verifier::external_body]
pub fn push_char(s: &mut String, c: char)
    ensures
        final(s)@ == old(s)@.push(c),
{
    s.push(c);
}

/// The characters of `s`, in order.
pub fn to_chars(s: &str) -> (r: Vec<char>)
    ensures
        r@ == s@,
{
    let n = s.unicode_len();
    let mut r: Vec<char> = Vec::new();
    let mut i: usize = 0;
    while i < n
        invariant
            n == s@.len(),
            i <= n,
            r@ == s@.take(i as int),
        decreases n - i,
    {
        r.push(s.get_char(i));
        i = i + 1;
        assert(r@ =~= s@.take(i as int));
    }
    assert(r@ =~= s@);
    r
}

/// A `String` holding exactly the characters of `v`.
pub fn from_chars(v: &[char]) -> (r: String)
    ensures
        r@ == v@,
{
    let mut r = String::new();
    let mut i: usize = 0;
    while i < v.len()
        invariant
            i <= v@.len(),
            r@ == v@.take(i as int),
        decreases v@.len() - i,
    {
        push_char(&mut r, v[i]);
        i = i + 1;
        assert(r@ =~= v@.take(i as int));
    }
    assert(r@ =~= v@);
    r
}

/// Splits `s` at every occurrence of `sep`, as `str::split` does: the
/// result has one more piece than `s` has separators.
pub open spec fn split_on(s: Seq<char>, sep: char) -> Seq<Seq<char>>
    decreases s.len(),
{
    if s.len() == 0 {
        seq![Seq::<char>::empty()]
    } else {
        let rest = split_on(s.drop_last(), sep);
        if s.last() == sep {
            rest.push(Seq::<char>::empty())
        } else {
            rest.update(rest.len() - 1, rest.last().push(s.last()))
        }
    }
}

/// Splitting always yields at least one piece.
pub proof fn lemma_split_on_nonempty(s: Seq<char>, sep: char)
    ensures
        split_on(s, sep).len() >= 1,
    decreases s.len(),
{
    if s.len() > 0 {
        lemma_split_on_nonempty(s.drop_last(), sep);
    }
}

/// The views of a sequence of character vectors.
pub open spec fn views(v: Seq<Vec<char>>) -> Seq<Seq<char>> {
    v.map_values(|x: Vec<char>| x@)
}

/// Splits `s` at every occurrence of `sep`.
pub fn split_chars(s: &[char], sep: char) -> (r: Vec<Vec<char>>)
    ensures
        views(r@) == split_on(s@, sep),
{
    let mut done: Vec<Vec<char>> = Vec::new();
    let mut cur: Vec<char> = Vec::new();
    let mut i: usize = 0;
    assert(s@.take(0) =~= Seq::<char>::empty());
    while i < s.len()
        invariant
            i <= s@.len(),
            views(done@).push(cur@) == split_on(s@.take(i as int), sep),
        decreases s@.len() - i,
    {
        let c = s[i];
        let ghost prev = s@.take(i as int);
        assert(s@.take(i + 1).drop_last() =~= prev);
        proof {
            lemma_split_on_nonempty(prev, sep);
        }
        if c == sep {
            done.push(cur);
            cur = Vec::new();
            assert(views(done@).push(cur@) =~= split_on(prev, sep).push(Seq::<char>::empty()));
        } else {
            cur.push(c);
            assert(views(done@).push(cur@) =~= split_on(prev, sep).update(
                split_on(prev, sep).len() - 1,
                split_on(prev, sep).last().push(c),
            ));
        }
        i = i + 1;
    }
    assert(s@.take(s@.len() as int) =~= s@);
    done.push(cur);
    assert(views(done@) =~= split_on(s@, sep));
    done
}


/// `s` without its trailing carriage returns (`trim_end_matches('\r')`).
pub open spec fn trim_end_cr(s: Seq<char>) -> Seq<char>
    decreases s.len(),
{
    if s.len() > 0 && s.last() == '\r' {
        trim_end_cr(s.drop_last())
    } else {
        s
    }
}

/// The lines of `s`, as `str::lines` yields them, each without trailing
/// carriage returns: pieces between newlines, where a final newline does
/// not start an empty last line.
pub open spec fn text_lines(s: Seq<char>) -> Seq<Seq<char>> {
    let pieces = split_on(s, '\n');
    let kept = if pieces.last().len() == 0 { pieces.drop_last() } else { pieces };
    kept.map_values(|l: Seq<char>| trim_end_cr(l))
}

/// Removes the trailing carriage returns of `s`.
pub fn strip_trailing_cr(s: &[char]) -> (r: Vec<char>)
    ensures
        r@ == trim_end_cr(s@),
{
    let mut j: usize = s.len();
    assert(s@.take(j as int) =~= s@);
    while j > 0 && s[j - 1] == '\r'
        invariant
            j <= s@.len(),
            trim_end_cr(s@.take(j as int)) == trim_end_cr(s@),
        decreases j,
    {
        assert(s@.take(j as int).drop_last() =~= s@.take(j - 1));
        j = j - 1;
    }
    let mut r: Vec<char> = Vec::new();
    let mut k: usize = 0;
    while k < j
        invariant
            j <= s@.len(),
            k <= j,
            r@ == s@.take(k as int),
        decreases j - k,
    {
        r.push(s[k]);
        k = k + 1;
        assert(r@ =~= s@.take(k as int));
    }
    r
}

/// The lines of `s` (see `text_lines`).
pub fn lines_of(s: &[char]) -> (r: Vec<Vec<char>>)
    ensures
        views(r@) == text_lines(s@),
{
    let mut pieces = split_chars(s, '\n');
    proof {
        lemma_split_on_nonempty(s@, '\n');
    }
    let ghost all = views(pieces@);
    let last_empty = pieces[pieces.len() - 1].len() == 0;
    if last_empty {
        pieces.pop();
    }
    let ghost kept = if all.last().len() == 0 { all.drop_last() } else { all };
    assert(views(pieces@) =~= kept);
    let mut r: Vec<Vec<char>> = Vec::new();
    let mut i: usize = 0;
    while i < pieces.len()
        invariant
            i <= pieces@.len(),
            views(pieces@) == kept,
            views(r@) == kept.take(i as int).map_values(|l: Seq<char>| trim_end_cr(l)),
        decreases pieces@.len() - i,
    {
        let line = strip_trailing_cr(pieces[i].as_slice());
        assert(views(pieces@)[i as int] == pieces@[i as int]@);
        let ghost old_r = views(r@);
        r.push(line);
        assert(views(r@) =~= old_r.push(trim_end_cr(kept[i as int])));
        assert(kept.take(i + 1).map_values(|l: Seq<char>| trim_end_cr(l)) =~= kept.take(
            i as int,
        ).map_values(|l: Seq<char>| trim_end_cr(l)).push(trim_end_cr(kept[i as int])));
        i = i + 1;
    }
    assert(kept.take(i as int) =~= kept);
    r
}


/// Whether `c` is white space, as `char::is_whitespace` documents it:
/// the characters with the Unicode `White_Space` property.
pub open spec fn is_ws(c: char) -> bool {
    ||| ('\u{9}' <= c && c <= '\u{d}')
    ||| c == ' '
    ||| c == '\u{85}'
    ||| c == '\u{a0}'
    ||| c == '\u{1680}'
    ||| ('\u{2000}' <= c && c <= '\u{200a}')
    ||| c == '\u{2028}'
    ||| c == '\u{2029}'
    ||| c == '\u{202f}'
    ||| c == '\u{205f}'
    ||| c == '\u{3000}'
}

/// Whether `c` is white space (see `is_ws`).
pub fn is_whitespace(c: char) -> (r: bool)
    ensures
        r == is_ws(c),
{
    ('\u{9}' <= c && c <= '\u{d}') || c == ' ' || c == '\u{85}' || c == '\u{a0}' || c
        == '\u{1680}' || ('\u{2000}' <= c && c <= '\u{200a}') || c == '\u{2028}' || c
        == '\u{2029}' || c == '\u{202f}' || c == '\u{205f}' || c == '\u{3000}'
}

/// `s` without its leading white space.
pub open spec fn trim_start(s: Seq<char>) -> Seq<char>
    decreases s.len(),
{
    if s.len() > 0 && is_ws(s[0]) {
        trim_start(s.drop_first())
    } else {
        s
    }
}

/// `s` without its trailing white space.
pub open spec fn trim_end(s: Seq<char>) -> Seq<char>
    decreases s.len(),
{
    if s.len() > 0 && is_ws(s.last()) {
        trim_end(s.drop_last())
    } else {
        s
    }
}

/// `s` without leading and trailing white space (`str::trim`).
pub open spec fn trim(s: Seq<char>) -> Seq<char> {
    trim_end(trim_start(s))
}

/// The characters of `s` from `from` up to `to`.
pub fn copy_range(s: &[char], from: usize, to: usize) -> (r: Vec<char>)
    requires
        from <= to <= s@.len(),
    ensures
        r@ == s@.subrange(from as int, to as int),
{
    let mut r: Vec<char> = Vec::new();
    let mut k: usize = from;
    while k < to
        invariant
            from <= k <= to,
            to <= s@.len(),
            r@ == s@.subrange(from as int, k as int),
        decreases to - k,
    {
        r.push(s[k]);
        k = k + 1;
        assert(r@ =~= s@.subrange(from as int, k as int));
    }
    r
}

/// `s` without leading and trailing white space.
pub fn trim_chars(s: &[char]) -> (r: Vec<char>)
    ensures
        r@ == trim(s@),
{
    let n = s.len();
    let mut i: usize = 0;
    assert(s@.skip(0) =~= s@);
    while i < n && is_whitespace(s[i])
        invariant
            n == s@.len(),
            i <= n,
            trim_start(s@.skip(i as int)) == trim_start(s@),
        decreases n - i,
    {
        assert(s@.skip(i as int).drop_first() =~= s@.skip(i + 1));
        i = i + 1;
    }
    assert(trim_start(s@) == s@.skip(i as int));
    let mut j: usize = n;
    assert(s@.subrange(i as int, n as int) =~= s@.skip(i as int));
    while j > i && is_whitespace(s[j - 1])
        invariant
            n == s@.len(),
            i <= j <= n,
            trim_end(s@.subrange(i as int, j as int)) == trim(s@),
        decreases j,
    {
        assert(s@.subrange(i as int, j as int).drop_last() =~= s@.subrange(i as int, j - 1));
        j = j - 1;
    }
    copy_range(s, i, j)
}

/// The white-space separated words of `s` (`str::split_whitespace`).
pub open spec fn words(s: Seq<char>) -> Seq<Seq<char>>
    decreases s.len(),
{
    if s.len() == 0 {
        Seq::<Seq<char>>::empty()
    } else {
        let rest = words(s.drop_last());
        let c = s.last();
        if is_ws(c) {
            rest
        } else if s.len() >= 2 && !is_ws(s[s.len() - 2]) {
            rest.update(rest.len() - 1, rest.last().push(c))
        } else {
            rest.push(seq![c])
        }
    }
}

/// A text that ends in a word has at least one word.
pub proof fn lemma_words_nonempty(s: Seq<char>)
    requires
        s.len() > 0,
        !is_ws(s.last()),
    ensures
        words(s).len() >= 1,
    decreases s.len(),
{
    if s.len() >= 2 && !is_ws(s[s.len() - 2]) {
        lemma_words_nonempty(s.drop_last());
    }
}

/// The white-space separated words of `s`.
pub fn split_words(s: &[char]) -> (r: Vec<Vec<char>>)
    ensures
        views(r@) == words(s@),
{
    let mut done: Vec<Vec<char>> = Vec::new();
    let mut cur: Vec<char> = Vec::new();
    let mut in_word = false;
    let mut i: usize = 0;
    assert(s@.take(0) =~= Seq::<char>::empty());
    while i < s.len()
        invariant
            i <= s@.len(),
            in_word == (i > 0 && !is_ws(s@[i - 1])),
            in_word ==> views(done@).push(cur@) == words(s@.take(i as int)),
            !in_word ==> views(done@) == words(s@.take(i as int)) && cur@.len() == 0,
        decreases s@.len() - i,
    {
        let c = s[i];
        let ghost prev = s@.take(i as int);
        let ghost next = s@.take(i + 1);
        assert(next.drop_last() =~= prev);
        assert(next.last() == c);
        if is_whitespace(c) {
            if in_word {
                done.push(cur);
                cur = Vec::new();
            }
            in_word = false;
        } else {
            if in_word {
                assert(next[next.len() - 2] == s@[i - 1]);
                proof {
                    lemma_words_nonempty(prev);
                }
                cur.push(c);
                assert(views(done@).push(cur@) =~= words(prev).update(
                    words(prev).len() - 1,
                    words(prev).last().push(c),
                ));
            } else {
                if i > 0 {
                    assert(next[next.len() - 2] == s@[i - 1]);
                }
                cur.push(c);
                assert(cur@ =~= seq![c]);
                assert(views(done@).push(cur@) =~= words(prev).push(seq![c]));
                in_word = true;
            }
        }
        i = i + 1;
    }
    assert(s@.take(s@.len() as int) =~= s@);
    if in_word {
        done.push(cur);
    }
    done
}


/// Whether `p` occurs in `s` at position `k`.
pub open spec fn occurs_at(s: Seq<char>, p: Seq<char>, k: int) -> bool {
    0 <= k && k + p.len() <= s.len() && s.subrange(k, k + p.len()) == p
}

/// Whether `p` occurs in `s` (`str::contains` with a string pattern).
pub open spec fn contains_text(s: Seq<char>, p: Seq<char>) -> bool {
    exists|k: int| occurs_at(s, p, k)
}

/// Whether `a` and `b` hold the same characters.
pub fn chars_eq(a: &[char], b: &[char]) -> (r: bool)
    ensures
        r == (a@ == b@),
{
    if a.len() != b.len() {
        return false;
    }
    let mut i: usize = 0;
    while i < a.len()
        invariant
            a@.len() == b@.len(),
            i <= a@.len(),
            forall|j: int| 0 <= j < i ==> a@[j] == b@[j],
        decreases a@.len() - i,
    {
        if a[i] != b[i] {
            return false;
        }
        i = i + 1;
    }
    assert(a@ =~= b@);
    true
}

/// Whether `p` occurs in `s` at position `k`.
fn matches_at(s: &[char], p: &[char], k: usize) -> (r: bool)
    requires
        k + p@.len() <= s@.len(),
    ensures
        r == occurs_at(s@, p@, k as int),
{
    let mut j: usize = 0;
    while j < p.len()
        invariant
            k + p@.len() <= s@.len(),
            s@.len() == s.len(),
            j <= p@.len(),
            forall|t: int| 0 <= t < j ==> s@[k + t] == p@[t],
        decreases p@.len() - j,
    {
        if s[k + j] != p[j] {
            assert(s@.subrange(k as int, k + p@.len())[j as int] != p@[j as int]);
            return false;
        }
        j = j + 1;
    }
    assert(s@.subrange(k as int, k + p@.len()) =~= p@);
    true
}

/// Whether `p` occurs in `s`.
pub fn contains_chars(s: &[char], p: &[char]) -> (r: bool)
    ensures
        r == contains_text(s@, p@),
{
    if p.len() > s.len() {
        return false;
    }
    let last = s.len() - p.len();
    let mut k: usize = 0;
    loop
        invariant
            last == s@.len() - p@.len(),
            k <= last,
            forall|t: int| 0 <= t < k ==> !occurs_at(s@, p@, t),
        decreases last - k,
    {
        if matches_at(s, p, k) {
            return true;
        }
        if k == last {
            return false;
        }
        k = k + 1;
    }
}

/// Whether `s` ends with `p` (`str::ends_with`).
pub open spec fn ends_with_text(s: Seq<char>, p: Seq<char>) -> bool {
    p.len() <= s.len() && s.subrange(s.len() - p.len(), s.len() as int) == p
}

/// Whether `s` ends with `p`.
pub fn ends_with_chars(s: &[char], p: &[char]) -> (r: bool)
    ensures
        r == ends_with_text(s@, p@),
{
    if p.len() > s.len() {
        return false;
    }
    matches_at(s, p, s.len() - p.len())
}

/// Whether `i` is the first position of `c` in `s`.
pub open spec fn is_first_index(s: Seq<char>, c: char, i: int) -> bool {
    0 <= i < s.len() && s[i] == c && forall|j: int| 0 <= j < i ==> s[j] != c
}

/// The first position of `c` in `s`, where `s` contains `c`.
pub open spec fn first_index(s: Seq<char>, c: char) -> int {
    choose|i: int| is_first_index(s, c, i)
}

/// The first position is unique.
pub proof fn lemma_first_index_unique(s: Seq<char>, c: char, i: int)
    requires
        is_first_index(s, c, i),
    ensures
        first_index(s, c) == i,
{
    let k = first_index(s, c);
    assert(is_first_index(s, c, k));
    if k < i {
        assert(s[k] != c);
    } else if i < k {
        assert(s[i] != c);
    }
}

/// The first position of `c` in `s`, or `None` if `c` does not occur.
pub fn find_char(s: &[char], c: char) -> (r: Option<usize>)
    ensures
        r is None <==> !s@.contains(c),
        r matches Some(i) ==> i == first_index(s@, c) && is_first_index(s@, c, i as int),
{
    let mut i: usize = 0;
    while i < s.len()
        invariant
            i <= s@.len(),
            forall|j: int| 0 <= j < i ==> s@[j] != c,
        decreases s@.len() - i,
    {
        if s[i] == c {
            proof {
                lemma_first_index_unique(s@, c, i as int);
            }
            return Some(i);
        }
        i = i + 1;
    }
    None
}

/// The decimal digit for `d < 10`.
pub open spec fn digit(d: nat) -> char {
    (d + 48) as char
}

/// The decimal numeral of `n`, without leading zeros.
pub open spec fn decimal(n: nat) -> Seq<char>
    decreases n,
{
    if n < 10 {
        seq![digit(n)]
    } else {
        decimal(n / 10).push(digit(n % 10))
    }
}

/// Appends the decimal numeral of `n` to `out`.
pub fn push_decimal(out: &mut String, n: usize)
    ensures
        final(out)@ == old(out)@ + decimal(n as nat),
    decreases n,
{
    if n >= 10 {
        push_decimal(out, n / 10);
    }
    let d: u8 = (n % 10) as u8;
    let c = (d + 48) as char;
    push_char(out, c);
    assert(c == digit((n % 10) as nat));
    assert(out@ =~= old(out)@ + decimal(n as nat));
}


/// `s` with every newline written as a carriage return and a newline.
pub open spec fn crlf(s: Seq<char>) -> Seq<char>
    decreases s.len(),
{
    if s.len() == 0 {
        s
    } else if s.last() == '\n' {
        crlf(s.drop_last()) + seq!['\r', '\n']
    } else {
        crlf(s.drop_last()).push(s.last())
    }
}

/// Every piece but the last, followed by a carriage return.
pub open spec fn mark_cr(ps: Seq<Seq<char>>) -> Seq<Seq<char>> {
    Seq::new(ps.len(), |i: int| if i < ps.len() - 1 { ps[i].push('\r') } else { ps[i] })
}

/// Splitting the CRLF form of `s` at newlines gives the pieces of `s`,
/// each but the last followed by a carriage return.
pub proof fn lemma_split_crlf(s: Seq<char>)
    ensures
        split_on(crlf(s), '\n') == mark_cr(split_on(s, '\n')),
    decreases s.len(),
{
    if s.len() == 0 {
        assert(mark_cr(split_on(s, '\n')) =~= split_on(s, '\n'));
    } else {
        let p = s.drop_last();
        lemma_split_crlf(p);
        lemma_split_on_nonempty(p, '\n');
        lemma_split_on_nonempty(crlf(p), '\n');
        let prev = split_on(p, '\n');
        if s.last() == '\n' {
            let t = crlf(p).push('\r');
            assert(t.drop_last() =~= crlf(p));
            assert(crlf(s).drop_last() =~= t);
            lemma_split_on_nonempty(t, '\n');
            assert(split_on(t, '\n') =~= mark_cr(prev).update(
                mark_cr(prev).len() - 1,
                mark_cr(prev).last().push('\r'),
            ));
            assert(split_on(crlf(s), '\n') =~= mark_cr(split_on(s, '\n')));
        } else {
            assert(crlf(s).drop_last() =~= crlf(p));
            assert(split_on(crlf(s), '\n') =~= mark_cr(split_on(s, '\n')));
        }
    }
}

/// Writing newlines as CRLF does not change the lines of a text.
pub proof fn lemma_text_lines_crlf(s: Seq<char>)
    ensures
        text_lines(crlf(s)) == text_lines(s),
{
    lemma_split_crlf(s);
    lemma_split_on_nonempty(s, '\n');
    let ps = split_on(s, '\n');
    let qs = split_on(crlf(s), '\n');
    let kp = if ps.last().len() == 0 { ps.drop_last() } else { ps };
    let kq = if qs.last().len() == 0 { qs.drop_last() } else { qs };
    assert(qs.last() == ps.last());
    assert forall|i: int| 0 <= i < kp.len() implies trim_end_cr(#[trigger] kq[i]) == trim_end_cr(
        kp[i],
    ) by {
        if i < ps.len() - 1 {
            assert(kq[i] == ps[i].push('\r'));
            assert(ps[i].push('\r').drop_last() =~= ps[i]);
        }
    }
    assert(text_lines(crlf(s)) =~= text_lines(s));
}

} // verus!
