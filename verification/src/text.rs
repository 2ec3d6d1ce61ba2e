//! Text as sequences of characters: white space, trimming, lines, words.

use vstd::prelude::*;

verus! {

/// Whether `c` has the Unicode property `White_Space`.
pub open spec fn is_space(c: char) -> bool {
    let n = c as u32;
    ||| 0x09 <= n <= 0x0D
    ||| n == 0x20
    ||| n == 0x85
    ||| n == 0xA0
    ||| n == 0x1680
    ||| 0x2000 <= n <= 0x200A
    ||| n == 0x2028
    ||| n == 0x2029
    ||| n == 0x202F
    ||| n == 0x205F
    ||| n == 0x3000
}

/// `s` without its leading white space.
pub open spec fn trim_start(s: Seq<char>) -> Seq<char>
    decreases s.len(),
{
    if s.len() > 0 && is_space(s[0]) {
        trim_start(s.drop_first())
    } else {
        s
    }
}

/// `s` without its trailing white space.
pub open spec fn trim_end(s: Seq<char>) -> Seq<char>
    decreases s.len(),
{
    if s.len() > 0 && is_space(s.last()) {
        trim_end(s.drop_last())
    } else {
        s
    }
}

/// `s` without leading and trailing white space.
pub open spec fn trimmed(s: Seq<char>) -> Seq<char> {
    trim_end(trim_start(s))
}

/// The first index at or after `from` that holds a line feed, or the length
/// of `s` where there is none.
pub open spec fn line_end(s: Seq<char>, from: int) -> int
    decreases s.len() - from,
{
    if from < 0 || from >= s.len() {
        s.len() as int
    } else if s[from] == '\n' {
        from
    } else {
        line_end(s, from + 1)
    }
}

/// `s` without one trailing carriage return.
pub open spec fn without_cr(s: Seq<char>) -> Seq<char> {
    if s.len() > 0 && s.last() == '\r' {
        s.drop_last()
    } else {
        s
    }
}

/// The lines of `s`. A line ends with a line feed, or with a carriage return
/// directly followed by one; neither belongs to the line. What follows the
/// last line feed is a line of its own unless it is empty.
pub open spec fn lines_of(s: Seq<char>) -> Seq<Seq<char>>
    decreases s.len(),
{
    if s.len() == 0 {
        Seq::empty()
    } else {
        let n = line_end(s, 0);
        if n >= s.len() {
            seq![s]
        } else {
            proof {
                lemma_line_end_bounds(s, 0);
            }
            seq![without_cr(s.take(n))] + lines_of(s.skip(n + 1))
        }
    }
}

/// The first index at or after `from` that holds white space, or the length
/// of `s` where there is none.
pub open spec fn word_end(s: Seq<char>, from: int) -> int
    decreases s.len() - from,
{
    if from < 0 || from >= s.len() {
        s.len() as int
    } else if is_space(s[from]) {
        from
    } else {
        word_end(s, from + 1)
    }
}

/// The words of `s`: its maximal runs of characters that are not white space.
pub open spec fn words_of(s: Seq<char>) -> Seq<Seq<char>>
    decreases s.len(),
{
    if s.len() == 0 {
        Seq::empty()
    } else if is_space(s[0]) {
        words_of(s.drop_first())
    } else {
        let n = word_end(s, 0);
        proof {
            lemma_word_end_bounds(s, 1);
        }
        seq![s.take(n)] + words_of(s.skip(n))
    }
}

/// `line_end` lies between `from` and the length of `s`.
pub proof fn lemma_line_end_bounds(s: Seq<char>, from: int)
    requires
        0 <= from <= s.len(),
    ensures
        from <= line_end(s, from) <= s.len(),
        line_end(s, from) < s.len() ==> s[line_end(s, from)] == '\n',
        forall|i: int| from <= i < line_end(s, from) ==> s[i] != '\n',
    decreases s.len() - from,
{
    if from < s.len() && s[from] != '\n' {
        lemma_line_end_bounds(s, from + 1);
    }
}

/// `word_end` lies between `from` and the length of `s`.
pub proof fn lemma_word_end_bounds(s: Seq<char>, from: int)
    requires
        0 <= from <= s.len(),
    ensures
        from <= word_end(s, from) <= s.len(),
        word_end(s, from) < s.len() ==> is_space(s[word_end(s, from)]),
        forall|i: int| from <= i < word_end(s, from) ==> !is_space(s[i]),
    decreases s.len() - from,
{
    if from < s.len() && !is_space(s[from]) {
        lemma_word_end_bounds(s, from + 1);
    }
}

/// Decides `is_space`.
pub fn is_whitespace(c: char) -> (b: bool)
    ensures
        b == is_space(c),
{
    let n: u32 = c as u32;
    (0x09 <= n && n <= 0x0D) || n == 0x20 || n == 0x85 || n == 0xA0 || n == 0x1680 || (0x2000 <= n
        && n <= 0x200A) || n == 0x2028 || n == 0x2029 || n == 0x202F || n == 0x205F || n == 0x3000
}

/// The characters of `s`, in order.
pub fn chars_of(s: &str) -> (v: Vec<char>)
    ensures
        v@ == s@,
{
    let mut v: Vec<char> = Vec::new();
    for c in it: s.chars()
        invariant
            v@ == it.seq().take(it.index()),
    {
        v.push(c);
    }
    v
}

/// `String::push`: appends one character to the string.
#[verifier::external_body]
fn push_char(s: &mut String, c: char)
    ensures
        final(s)@ == old(s)@.push(c),
{
    s.push(c)
}

/// The string made of the characters `v[from..to]`.
pub fn string_of(v: &Vec<char>, from: usize, to: usize) -> (s: String)
    requires
        from <= to <= v.len(),
    ensures
        s@ == v@.subrange(from as int, to as int),
{
    let mut s = String::new();
    let mut i: usize = from;
    while i < to
        invariant
            from <= i <= to <= v.len(),
            s@ == v@.subrange(from as int, i as int),
        decreases to - i,
    {
        push_char(&mut s, v[i]);
        i += 1;
    }
    s
}

/// Whether `a` and `b` hold the same characters.
pub fn same_text(a: &Vec<char>, b: &Vec<char>) -> (r: bool)
    ensures
        r == (a@ == b@),
{
    if a.len() != b.len() {
        return false;
    }
    let mut i: usize = 0;
    while i < a.len()
        invariant
            a.len() == b.len(),
            i <= a.len(),
            a@.take(i as int) == b@.take(i as int),
        decreases a.len() - i,
    {
        if a[i] != b[i] {
            return false;
        }
        assert(a@.take(i + 1) =~= a@.take(i as int).push(a@[i as int]));
        assert(b@.take(i + 1) =~= b@.take(i as int).push(b@[i as int]));
        i += 1;
    }
    assert(a@ =~= a@.take(a.len() as int));
    assert(b@ =~= b@.take(b.len() as int));
    true
}

/// Removes leading and trailing white space.
pub fn trim(v: &Vec<char>) -> (r: Vec<char>)
    ensures
        r@ == trimmed(v@),
{
    let n = v.len();
    let mut i: usize = 0;
    assert(v@.skip(0) =~= v@);
    while i < n && is_whitespace(v[i])
        invariant
            n == v.len(),
            i <= n,
            trim_start(v@) == trim_start(v@.skip(i as int)),
        decreases n - i,
    {
        assert(v@.skip(i as int).drop_first() =~= v@.skip(i + 1));
        i += 1;
    }
    let ghost t = v@.skip(i as int);
    let mut j: usize = n;
    assert(t.take(n - i) =~= t);
    while j > i && is_whitespace(v[j - 1])
        invariant
            n == v.len(),
            i <= j <= n,
            t == v@.skip(i as int),
            trim_end(t) == trim_end(t.take(j - i)),
        decreases j,
    {
        assert(t.take(j - i).drop_last() =~= t.take(j - i - 1));
        j -= 1;
    }
    let mut r: Vec<char> = Vec::new();
    let mut k: usize = i;
    while k < j
        invariant
            i <= k <= j <= n,
            n == v.len(),
            r@ == v@.subrange(i as int, k as int),
        decreases j - k,
    {
        r.push(v[k]);
        k += 1;
    }
    assert(v@.subrange(i as int, j as int) =~= t.take(j - i));
    r
}

/// The pieces of `s` that the index pairs of `spans` cut out, in order.
pub open spec fn cut(s: Seq<char>, spans: Seq<(usize, usize)>) -> Seq<Seq<char>> {
    Seq::new(spans.len(), |i: int| s.subrange(spans[i].0 as int, spans[i].1 as int))
}

/// Every pair of `spans` is a range of indices of `s`.
pub open spec fn spans_within(s: Seq<char>, spans: Seq<(usize, usize)>) -> bool {
    forall|i: int| 0 <= i < spans.len() ==> (#[trigger] spans[i]).0 <= spans[i].1 <= s.len()
}

/// `line_end(s, from)` is `e` where no line feed lies between `from` and `e`
/// and `e` holds one or is the end of `s`.
proof fn lemma_line_end_is(s: Seq<char>, from: int, e: int)
    requires
        0 <= from <= e <= s.len(),
        forall|i: int| from <= i < e ==> s[i] != '\n',
        e == s.len() || s[e] == '\n',
    ensures
        line_end(s, from) == e,
    decreases e - from,
{
    if from < e {
        lemma_line_end_is(s, from + 1, e);
    }
}

/// `word_end(s, from)` is `e` where no white space lies between `from` and
/// `e` and `e` holds some or is the end of `s`.
proof fn lemma_word_end_is(s: Seq<char>, from: int, e: int)
    requires
        0 <= from <= e <= s.len(),
        forall|i: int| from <= i < e ==> !is_space(s[i]),
        e == s.len() || is_space(s[e]),
    ensures
        word_end(s, from) == e,
    decreases e - from,
{
    if from < e {
        lemma_word_end_is(s, from + 1, e);
    }
}

/// Where the lines of `v` begin and end: `lines_of` as index pairs.
pub fn line_spans(v: &Vec<char>) -> (r: Vec<(usize, usize)>)
    ensures
        spans_within(v@, r@),
        cut(v@, r@) == lines_of(v@),
{
    let n = v.len();
    let mut out: Vec<(usize, usize)> = Vec::new();
    let mut start: usize = 0;
    assert(v@.skip(0) =~= v@);
    assert(cut(v@, out@) =~= Seq::<Seq<char>>::empty());
    while start < n
        invariant
            n == v.len(),
            start <= n,
            spans_within(v@, out@),
            lines_of(v@) == cut(v@, out@) + lines_of(v@.skip(start as int)),
        decreases n - start,
    {
        let ghost t = v@.skip(start as int);
        let ghost before = cut(v@, out@);
        let mut e: usize = start;
        while e < n && v[e] != '\n'
            invariant
                n == v.len(),
                start <= e <= n,
                forall|k: int| start <= k < e ==> v@[k] != '\n',
            decreases n - e,
        {
            e += 1;
        }
        proof {
            lemma_line_end_is(t, 0, e - start);
        }
        if e == n {
            out.push((start, n));
            assert(v@.subrange(start as int, n as int) =~= t);
            assert(lines_of(v@.skip(n as int)) =~= Seq::<Seq<char>>::empty());
            assert(cut(v@, out@) =~= before + seq![t]);
            start = n;
        } else {
            let mut end: usize = e;
            if end > start && v[end - 1] == '\r' {
                end -= 1;
            }
            out.push((start, end));
            assert(t.take(e - start) =~= v@.subrange(start as int, e as int));
            assert(without_cr(t.take(e - start)) =~= v@.subrange(start as int, end as int));
            assert(t.skip(e - start + 1) =~= v@.skip(e + 1));
            assert(cut(v@, out@) =~= before + seq![without_cr(t.take(e - start))]);
            start = e + 1;
        }
    }
    assert(lines_of(v@.skip(start as int)) =~= Seq::<Seq<char>>::empty());
    out
}

/// Where the words of `v` begin and end: `words_of` as index pairs.
pub fn word_spans(v: &Vec<char>) -> (r: Vec<(usize, usize)>)
    ensures
        spans_within(v@, r@),
        cut(v@, r@) == words_of(v@),
{
    let n = v.len();
    let mut out: Vec<(usize, usize)> = Vec::new();
    let mut start: usize = 0;
    assert(v@.skip(0) =~= v@);
    assert(cut(v@, out@) =~= Seq::<Seq<char>>::empty());
    while start < n
        invariant
            n == v.len(),
            start <= n,
            spans_within(v@, out@),
            words_of(v@) == cut(v@, out@) + words_of(v@.skip(start as int)),
        decreases n - start,
    {
        let ghost t = v@.skip(start as int);
        let ghost before = cut(v@, out@);
        if is_whitespace(v[start]) {
            assert(t.drop_first() =~= v@.skip(start + 1));
            start += 1;
        } else {
            let mut e: usize = start + 1;
            while e < n && !is_whitespace(v[e])
                invariant
                    n == v.len(),
                    start < e <= n,
                    forall|k: int| start <= k < e ==> !is_space(v@[k]),
                decreases n - e,
            {
                e += 1;
            }
            proof {
                lemma_word_end_is(t, 0, e - start);
            }
            out.push((start, e));
            assert(t.take(e - start) =~= v@.subrange(start as int, e as int));
            assert(t.skip(e - start) =~= v@.skip(e as int));
            assert(cut(v@, out@) =~= before + seq![t.take(e - start)]);
            start = e;
        }
    }
    assert(words_of(v@.skip(start as int)) =~= Seq::<Seq<char>>::empty());
    out
}

/// The texts of the strings of `v`, in order.
pub open spec fn texts(v: Seq<String>) -> Seq<Seq<char>> {
    Seq::new(v.len(), |i: int| v[i]@)
}

/// The words of `s` as strings.
pub fn split_words(s: &str) -> (r: Vec<String>)
    ensures
        texts(r@) == words_of(s@),
{
    let v = chars_of(s);
    let spans = word_spans(&v);
    let mut out: Vec<String> = Vec::new();
    let mut i: usize = 0;
    while i < spans.len()
        invariant
            i <= spans.len(),
            spans_within(v@, spans@),
            texts(out@) == cut(v@, spans@).take(i as int),
        decreases spans.len() - i,
    {
        let (a, b) = spans[i];
        let w = string_of(&v, a, b);
        let ghost before = texts(out@);
        out.push(w);
        assert(texts(out@) =~= before.push(w@));
        assert(cut(v@, spans@).take(i + 1) =~= cut(v@, spans@).take(i as int).push(w@));
        i += 1;
    }
    assert(cut(v@, spans@).take(spans.len() as int) =~= cut(v@, spans@));
    out
}

/// What `str::to_lowercase` makes of a text: its lower-case form by the
/// Unicode rules.
pub uninterp spec fn lowercase_of(s: Seq<char>) -> Seq<char>;

/// `str::to_lowercase`. The result is a function of the text alone; it is
/// named, not described.
#[verifier::external_body]
pub(crate) fn lowercase(s: &str) -> (r: String)
    ensures
        r@ == lowercase_of(s@),
{
    s.to_lowercase()
}

/// What `String::from_utf8_lossy` makes of bytes: their text, with a
/// replacement character wherever they are not UTF-8.
pub uninterp spec fn lossy_text(bytes: Seq<u8>) -> Seq<char>;

/// `String::from_utf8_lossy`. The result is a function of the bytes alone;
/// it is named, not described.
#[verifier::external_body]
pub(crate) fn decode_lossy(bytes: &Vec<u8>) -> (r: String)
    ensures
        r@ == lossy_text(bytes@),
{
    String::from_utf8_lossy(bytes).into_owned()
}

/// `std::str::from_utf8`: the text that the bytes encode, if they are valid
/// UTF-8, and nothing otherwise.
#[verifier::external_body]
pub(crate) fn decode_strict(bytes: &Vec<u8>) -> (r: Option<String>)
    ensures
        r is Some <==> vstd::utf8::valid_utf8(bytes@),
        r matches Some(s) ==> s@ == vstd::utf8::decode_utf8(bytes@),
{
    std::str::from_utf8(bytes).ok().map(String::from)
}

/// Appends the characters `v[from..to]` and a line feed to `out`.
pub fn push_line(out: &mut Vec<char>, v: &Vec<char>, from: usize, to: usize)
    requires
        from <= to <= v.len(),
    ensures
        final(out)@ == old(out)@ + v@.subrange(from as int, to as int) + seq!['\n'],
{
    let mut i: usize = from;
    while i < to
        invariant
            from <= i <= to <= v.len(),
            out@ == old(out)@ + v@.subrange(from as int, i as int),
        decreases to - i,
    {
        out.push(v[i]);
        i += 1;
    }
    out.push('\n');
}

} // verus!
