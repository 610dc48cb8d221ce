//! Character-level text handling: whitespace trimming, splitting on the
//! field separator, and lenient unsigned-number parsing.

use vstd::prelude::*;
use vstd::utf8::{decode_utf8, valid_utf8};

verus! {

/// The Unicode `White_Space` property, which `char::is_whitespace` follows.
pub open spec fn is_ws(c: char) -> bool {
    ('\u{9}' <= c && c <= '\u{d}') || c == ' ' || c == '\u{85}' || c == '\u{a0}'
        || c == '\u{1680}' || ('\u{2000}' <= c && c <= '\u{200a}') || c == '\u{2028}'
        || c == '\u{2029}' || c == '\u{202f}' || c == '\u{205f}' || c == '\u{3000}'
}

/// `s` without its leading whitespace.
pub open spec fn trim_start(s: Seq<char>) -> Seq<char>
    decreases s.len(),
{
    if s.len() > 0 && is_ws(s[0]) {
        trim_start(s.drop_first())
    } else {
        s
    }
}

/// `s` without its trailing whitespace.
pub open spec fn trim_end(s: Seq<char>) -> Seq<char>
    decreases s.len(),
{
    if s.len() > 0 && is_ws(s.last()) {
        trim_end(s.drop_last())
    } else {
        s
    }
}

/// `s` without surrounding whitespace.
pub open spec fn trim(s: Seq<char>) -> Seq<char> {
    trim_end(trim_start(s))
}

fn is_whitespace(c: char) -> (r: bool)
    ensures
        r == is_ws(c),
{
    ('\u{9}' <= c && c <= '\u{d}') || c == ' ' || c == '\u{85}' || c == '\u{a0}'
        || c == '\u{1680}' || ('\u{2000}' <= c && c <= '\u{200a}') || c == '\u{2028}'
        || c == '\u{2029}' || c == '\u{202f}' || c == '\u{205f}' || c == '\u{3000}'
}

/// Removes leading and trailing whitespace.
pub fn trim_whitespace(s: &str) -> (r: &str)
    ensures
        r@ == trim(s@),
{
    let n = s.unicode_len();
    let mut i: usize = 0;
    assert(s@.subrange(0, n as int) =~= s@);
    while i < n && is_whitespace(s.get_char(i))
        invariant
            i <= n,
            n == s@.len(),
            trim_start(s@) == trim_start(s@.subrange(i as int, n as int)),
        decreases n - i,
    {
        assert(s@.subrange(i as int, n as int).drop_first() =~= s@.subrange(i + 1, n as int));
        i = i + 1;
    }
    assert(trim_start(s@) == s@.subrange(i as int, n as int));
    let mut j: usize = n;
    while j > i && is_whitespace(s.get_char(j - 1))
        invariant
            i <= j <= n,
            n == s@.len(),
            trim(s@) == trim_end(s@.subrange(i as int, j as int)),
        decreases j,
    {
        assert(s@.subrange(i as int, j as int).drop_last() =~= s@.subrange(i as int, j - 1));
        j = j - 1;
    }
    s.substring_char(i, j)
}

/// The pieces of `s` between separators `|`, in order. Like `str::split`,
/// there is always at least one piece, and a string with `k` separators has
/// `k + 1` pieces.
pub open spec fn split_pipes(s: Seq<char>) -> Seq<Seq<char>>
    decreases s.len(),
{
    if s.len() == 0 {
        seq![Seq::empty()]
    } else {
        let init = split_pipes(s.drop_last());
        if s.last() == '|' {
            init.push(Seq::empty())
        } else {
            init.update(init.len() - 1, init.last().push(s.last()))
        }
    }
}

/// The views of a list of strings.
pub open spec fn views(v: Seq<String>) -> Seq<Seq<char>> {
    v.map_values(|f: String| f@)
}

proof fn lemma_split_pipes_nonempty(s: Seq<char>)
    ensures
        split_pipes(s).len() >= 1,
    decreases s.len(),
{
    if s.len() > 0 {
        lemma_split_pipes_nonempty(s.drop_last());
    }
}

/// Whether `s` holds no separator.
pub open spec fn no_pipe(s: Seq<char>) -> bool {
    forall|i: int| 0 <= i < s.len() ==> s[i] != '|'
}

/// The pieces `f` written one after another with `|` between them.
pub open spec fn join_pipes(f: Seq<Seq<char>>) -> Seq<char>
    decreases f.len(),
{
    if f.len() == 0 {
        Seq::empty()
    } else if f.len() == 1 {
        f[0]
    } else {
        join_pipes(f.drop_last()) + seq!['|'] + f.last()
    }
}

/// The number of separators in `s`.
pub open spec fn pipe_count(s: Seq<char>) -> nat
    decreases s.len(),
{
    if s.len() == 0 {
        0
    } else {
        pipe_count(s.drop_last()) + if s.last() == '|' { 1nat } else { 0nat }
    }
}

/// Text without a separator extends the last piece.
proof fn lemma_split_append_plain(x: Seq<char>, b: Seq<char>)
    requires
        no_pipe(b),
    ensures
        split_pipes(x + b) == split_pipes(x).update(
            split_pipes(x).len() - 1,
            split_pipes(x).last() + b,
        ),
    decreases b.len(),
{
    lemma_split_pipes_nonempty(x);
    let sx = split_pipes(x);
    if b.len() == 0 {
        assert(x + b =~= x);
        assert(sx.last() + b =~= sx.last());
        assert(sx.update(sx.len() - 1, sx.last()) =~= sx);
    } else {
        let b0 = b.drop_last();
        assert((x + b).drop_last() =~= x + b0);
        assert((x + b).last() == b.last());
        lemma_split_append_plain(x, b0);
        assert((sx.last() + b0).push(b.last()) =~= sx.last() + b);
        let s1 = sx.update(sx.len() - 1, sx.last() + b0);
        assert(s1.update(s1.len() - 1, s1.last().push(b.last())) =~= sx.update(
            sx.len() - 1,
            sx.last() + b,
        ));
    }
}

/// Splitting pieces that hold no separator, written with separators
/// between them, gives the pieces back.
pub proof fn lemma_split_join(f: Seq<Seq<char>>)
    requires
        f.len() >= 1,
        forall|k: int| 0 <= k < f.len() ==> #[trigger] no_pipe(f[k]),
    ensures
        split_pipes(join_pipes(f)) == f,
    decreases f.len(),
{
    if f.len() == 1 {
        let e = Seq::<char>::empty();
        assert(no_pipe(f[0]));
        lemma_split_append_plain(e, f[0]);
        assert(e + f[0] =~= f[0]);
        assert(e + f[0] =~= f[0]);
        assert(seq![e].update(0, e + f[0]) =~= f);
    } else {
        let g = f.drop_last();
        assert forall|k: int| 0 <= k < g.len() implies #[trigger] no_pipe(g[k]) by {
            assert(no_pipe(f[k]));
        }
        lemma_split_join(g);
        let x = join_pipes(g) + seq!['|'];
        assert(x.drop_last() =~= join_pipes(g));
        assert(split_pipes(x) == g.push(Seq::empty()));
        assert(no_pipe(f[f.len() - 1]));
        lemma_split_append_plain(x, f.last());
        assert(Seq::<char>::empty() + f.last() =~= f.last());
        assert(g.push(Seq::empty()).update(g.len() as int, Seq::<char>::empty() + f.last()) =~= f);
    }
}

/// A string with `k` separators splits into `k + 1` pieces.
pub proof fn lemma_split_len(s: Seq<char>)
    ensures
        split_pipes(s).len() == pipe_count(s) + 1,
    decreases s.len(),
{
    if s.len() > 0 {
        lemma_split_len(s.drop_last());
    }
}

proof fn lemma_pipe_count_concat(a: Seq<char>, b: Seq<char>)
    ensures
        pipe_count(a + b) == pipe_count(a) + pipe_count(b),
    decreases b.len(),
{
    if b.len() == 0 {
        assert(a + b =~= a);
    } else {
        assert((a + b).drop_last() =~= a + b.drop_last());
        lemma_pipe_count_concat(a, b.drop_last());
    }
}

/// Trimming removes no separator.
pub proof fn lemma_trim_keeps_pipes(s: Seq<char>)
    ensures
        pipe_count(trim(s)) == pipe_count(s),
{
    lemma_trim_start_keeps_pipes(s);
    lemma_trim_end_keeps_pipes(trim_start(s));
}

proof fn lemma_trim_start_keeps_pipes(s: Seq<char>)
    ensures
        pipe_count(trim_start(s)) == pipe_count(s),
    decreases s.len(),
{
    if s.len() > 0 && is_ws(s[0]) {
        let h = seq![s[0]];
        assert(h + s.drop_first() =~= s);
        lemma_pipe_count_concat(h, s.drop_first());
        assert(h.drop_last() =~= Seq::<char>::empty());
        assert(h.last() != '|');
        assert(pipe_count(h.drop_last()) == 0);
        assert(pipe_count(h) == pipe_count(h.drop_last()));
        lemma_trim_start_keeps_pipes(s.drop_first());
    }
}

proof fn lemma_trim_end_keeps_pipes(s: Seq<char>)
    ensures
        pipe_count(trim_end(s)) == pipe_count(s),
    decreases s.len(),
{
    if s.len() > 0 && is_ws(s.last()) {
        lemma_trim_end_keeps_pipes(s.drop_last());
    }
}

/// Splits `s` at every `|` into owned pieces.
pub fn split_fields(s: &str) -> (r: Vec<String>)
    ensures
        views(r@) == split_pipes(s@),
{
    let n = s.unicode_len();
    let mut fields: Vec<String> = Vec::new();
    let mut start: usize = 0;
    let mut i: usize = 0;
    assert(s@.subrange(0, 0) =~= Seq::<char>::empty());
    assert(views(fields@) =~= Seq::<Seq<char>>::empty());
    while i < n
        invariant
            start <= i <= n,
            n == s@.len(),
            split_pipes(s@.subrange(0, i as int)) == views(fields@).push(
                s@.subrange(start as int, i as int),
            ),
        decreases n - i,
    {
        let c = s.get_char(i);
        let ghost pre = s@.subrange(0, i + 1);
        assert(pre.drop_last() =~= s@.subrange(0, i as int));
        assert(pre.last() == c);
        if c == '|' {
            let piece = s.substring_char(start, i).to_owned();
            let ghost before = fields@;
            fields.push(piece);
            assert(views(fields@) =~= views(before).push(piece@));
            assert(s@.subrange(i + 1, i + 1) =~= Seq::<char>::empty());
            start = i + 1;
        } else {
            assert(s@.subrange(start as int, i as int).push(c) =~= s@.subrange(start as int, i + 1));
        }
        i = i + 1;
    }
    let last = s.substring_char(start, n).to_owned();
    let ghost before = fields@;
    fields.push(last);
    assert(views(fields@) =~= views(before).push(last@));
    assert(s@.subrange(0, n as int) =~= s@);
    fields
}

pub open spec fn is_digit(c: char) -> bool {
    '0' <= c && c <= '9'
}

pub open spec fn all_digits(s: Seq<char>) -> bool {
    forall|i: int| 0 <= i < s.len() ==> #[trigger] is_digit(s[i])
}

/// The number that a string of decimal digits writes.
pub open spec fn digits_value(s: Seq<char>) -> nat
    decreases s.len(),
{
    if s.len() == 0 {
        0
    } else {
        digits_value(s.drop_last()) * 10 + (s.last() as nat - '0' as nat) as nat
    }
}

/// What follows an optional leading `+`.
pub open spec fn unsigned_body(s: Seq<char>) -> Seq<char> {
    if s.len() > 0 && s[0] == '+' {
        s.drop_first()
    } else {
        s
    }
}

/// The value of `s` read as a `u32` the way `u32::from_str` reads it: an
/// optional `+`, then at least one decimal digit, and a value that fits.
pub open spec fn parse_u32_spec(s: Seq<char>) -> Option<u32> {
    let d = unsigned_body(s);
    if d.len() > 0 && all_digits(d) && digits_value(d) <= u32::MAX {
        Some(digits_value(d) as u32)
    } else {
        None
    }
}

/// The value of `s` as a `u32`, or 0 where it is not one.
pub open spec fn u32_or_zero(s: Seq<char>) -> u32 {
    match parse_u32_spec(s) {
        Some(v) => v,
        None => 0,
    }
}

proof fn lemma_digits_value_prefix(d: Seq<char>, k: int)
    requires
        0 <= k <= d.len(),
        all_digits(d),
    ensures
        digits_value(d.subrange(0, k)) <= digits_value(d),
    decreases d.len() - k,
{
    if k < d.len() {
        let p = d.subrange(0, k + 1);
        assert(p.drop_last() =~= d.subrange(0, k));
        assert(is_digit(p.last()));
        lemma_digits_value_prefix(d, k + 1);
        assert(d.subrange(0, d.len() as int) =~= d);
    } else {
        assert(d.subrange(0, k) =~= d);
    }
}

/// Reads `s` as a `u32` the way `u32::from_str` does.
pub fn parse_u32(s: &str) -> (r: Option<u32>)
    ensures
        r == parse_u32_spec(s@),
{
    let n = s.unicode_len();
    let mut i: usize = 0;
    if n > 0 && s.get_char(0) == '+' {
        i = 1;
    }
    let ghost d = unsigned_body(s@);
    assert(d =~= s@.subrange(i as int, n as int));
    if i == n {
        return None;
    }
    let start = i;
    while i < n
        invariant
            start <= i <= n,
            n == s@.len(),
            d == s@.subrange(start as int, n as int),
            d == unsigned_body(s@),
            start < n,
            forall|k: int| 0 <= k < i - start ==> #[trigger] is_digit(d[k]),
        decreases n - i,
    {
        let c = s.get_char(i);
        if !('0' <= c && c <= '9') {
            assert(!is_digit(d[i - start]));
            return None;
        }
        i = i + 1;
    }
    assert(all_digits(d));
    let mut value: u64 = 0;
    let mut k: usize = start;
    while k < n
        invariant
            start <= k <= n,
            n == s@.len(),
            d == s@.subrange(start as int, n as int),
            d == unsigned_body(s@),
            start < n,
            all_digits(d),
            value == digits_value(d.subrange(0, k - start)),
            value <= u32::MAX,
        decreases n - k,
    {
        let c = s.get_char(k);
        let ghost p = d.subrange(0, k - start + 1);
        assert(p.drop_last() =~= d.subrange(0, k - start));
        assert(p.last() == c);
        assert(is_digit(d[k - start]));
        let next = value * 10 + (c as u64 - '0' as u64);
        if next > u32::MAX as u64 {
            proof {
                lemma_digits_value_prefix(d, k - start + 1);
            }
            return None;
        }
        value = next;
        k = k + 1;
    }
    assert(d.subrange(0, n - start) =~= d);
    Some(value as u32)
}

/// Reads `s` as a `u32`, and gives 0 where it is not one.
pub fn parse_u32_or_zero(s: &str) -> (r: u32)
    ensures
        r == u32_or_zero(s@),
{
    match parse_u32(s) {
        Some(v) => v,
        None => 0,
    }
}

/// Whether two strings hold the same characters.
pub fn same_chars(a: &str, b: &str) -> (r: bool)
    ensures
        r == (a@ == b@),
{
    let n = a.unicode_len();
    if n != b.unicode_len() {
        return false;
    }
    let mut i: usize = 0;
    while i < n
        invariant
            i <= n,
            n == a@.len(),
            n == b@.len(),
            forall|k: int| 0 <= k < i ==> a@[k] == b@[k],
        decreases n - i,
    {
        if a.get_char(i) != b.get_char(i) {
            return false;
        }
        i = i + 1;
    }
    assert(a@ =~= b@);
    true
}

/// What `String::from_utf8_lossy` makes of some bytes.
pub uninterp spec fn lossy_utf8(b: Seq<u8>) -> Seq<char>;

/// Relies on `String::from_utf8_lossy`: the bytes read as UTF-8, with each
/// invalid sequence replaced; bytes that are valid UTF-8 read as they are.
#[verifier::external_body]
pub(crate) fn decode_lossy(b: &[u8]) -> (r: String)
    ensures
        r@ == lossy_utf8(b@),
        valid_utf8(b@) ==> r@ == decode_utf8(b@),
{
    String::from_utf8_lossy(b).into_owned()
}

} // verus!
