//! Character-level text utilities shared by the converters.
//!
//! Text is handled as `Vec<char>` in executable code and as `Seq<char>` in
//! specifications; every operation here is stated over those sequences.
use vstd::prelude::*;

verus! {

/// Relies on `str::chars`: yields the characters of the string in order.
#[verifier::external_body]
pub(crate) fn chars_of(s: &str) -> (r: Vec<char>)
    ensures
        r@ == s@,
{
    s.chars().collect()
}

/// Relies on `FromIterator<&char> for String`: the string holds the characters in order.
#[verifier::external_body]
pub(crate) fn string_of(v: &Vec<char>) -> (r: String)
    ensures
        r@ == v@,
{
    v.iter().collect()
}

/// What `str::to_lowercase` returns for a text.
pub uninterp spec fn lower_of(s: Seq<char>) -> Seq<char>;

/// Relies on `str::to_lowercase`: the result depends on the characters alone.
#[verifier::external_body]
pub(crate) fn lowercase(s: &str) -> (r: String)
    ensures
        r@ == lower_of(s@),
{
    s.to_lowercase()
}

/// The views of a sequence of character vectors.
pub open spec fn views(v: Seq<Vec<char>>) -> Seq<Seq<char>> {
    v.map_values(|x: Vec<char>| x@)
}

/// Appends all characters of `s` to `out`.
pub fn push_all(out: &mut Vec<char>, s: &Vec<char>)
    ensures
        final(out)@ == old(out)@ + s@,
{
    let mut i: usize = 0;
    while i < s.len()
        invariant
            i <= s.len(),
            out@ == old(out)@ + s@.take(i as int),
        decreases s.len() - i,
    {
        out.push(s[i]);
        i = i + 1;
        assert(s@.take(i as int) =~= s@.take(i - 1).push(s@[i - 1]));
    }
    assert(s@.take(s.len() as int) =~= s@);
}

/// Appends the characters of a string slice to `out`.
pub fn push_str(out: &mut Vec<char>, s: &str)
    ensures
        final(out)@ == old(out)@ + s@,
{
    let cs = chars_of(s);
    push_all(out, &cs);
}

/// A fresh vector holding `s[from..to]`.
pub fn copy_range(s: &Vec<char>, from: usize, to: usize) -> (r: Vec<char>)
    requires
        from <= to <= s.len(),
    ensures
        r@ == s@.subrange(from as int, to as int),
{
    let mut r: Vec<char> = Vec::new();
    let mut i: usize = from;
    while i < to
        invariant
            from <= i <= to <= s.len(),
            r@ == s@.subrange(from as int, i as int),
        decreases to - i,
    {
        r.push(s[i]);
        i = i + 1;
        assert(r@ =~= s@.subrange(from as int, i as int));
    }
    r
}

// ---------------------------------------------------------------------------
// Whitespace and trimming
/// Unicode `White_Space`, the set that `char::is_whitespace` tests.
pub open spec fn is_white(c: char) -> bool {
    let u = c as u32;
    u == 0x20 || (0x09 <= u && u <= 0x0d) || u == 0x85 || u == 0xa0 || u == 0x1680 || (0x2000
        <= u && u <= 0x200a) || u == 0x2028 || u == 0x2029 || u == 0x202f || u == 0x205f || u
        == 0x3000
}

pub fn is_white_char(c: char) -> (r: bool)
    ensures
        r == is_white(c),
{
    let u = c as u32;
    u == 0x20 || (0x09 <= u && u <= 0x0d) || u == 0x85 || u == 0xa0 || u == 0x1680 || (0x2000
        <= u && u <= 0x200a) || u == 0x2028 || u == 0x2029 || u == 0x202f || u == 0x205f || u
        == 0x3000
}

pub open spec fn trim_start(s: Seq<char>) -> Seq<char>
    decreases s.len(),
{
    if s.len() > 0 && is_white(s[0]) {
        trim_start(s.drop_first())
    } else {
        s
    }
}

pub open spec fn trim_end(s: Seq<char>) -> Seq<char>
    decreases s.len(),
{
    if s.len() > 0 && is_white(s.last()) {
        trim_end(s.drop_last())
    } else {
        s
    }
}

/// Leading and trailing whitespace removed, as `str::trim` does.
pub open spec fn trim(s: Seq<char>) -> Seq<char> {
    trim_end(trim_start(s))
}

/// A line is blank when nothing but whitespace is in it.
pub open spec fn is_blank(s: Seq<char>) -> bool {
    trim(s).len() == 0
}

pub fn trim_chars(s: &Vec<char>) -> (r: Vec<char>)
    ensures
        r@ == trim(s@),
{
    let n = s.len();
    let mut i: usize = 0;
    assert(s@.subrange(0, n as int) =~= s@);
    while i < n && is_white_char(s[i])
        invariant
            i <= n == s.len(),
            trim_start(s@) == trim_start(s@.subrange(i as int, n as int)),
        decreases n - i,
    {
        assert(s@.subrange(i as int, n as int).drop_first() =~= s@.subrange(
            i + 1,
            n as int,
        ));
        i = i + 1;
    }
    assert(trim_start(s@) == s@.subrange(i as int, n as int));
    let mut j: usize = n;
    while j > i && is_white_char(s[j - 1])
        invariant
            i <= j <= n == s.len(),
            trim_end(s@.subrange(i as int, n as int)) == trim_end(
                s@.subrange(i as int, j as int),
            ),
        decreases j,
    {
        assert(s@.subrange(i as int, j as int).drop_last() =~= s@.subrange(
            i as int,
            j - 1,
        ));
        j = j - 1;
    }
    copy_range(s, i, j)
}

pub fn is_blank_chars(s: &Vec<char>) -> (r: bool)
    ensures
        r == is_blank(s@),
{
    trim_chars(s).len() == 0
}

// ---------------------------------------------------------------------------
// Prefixes and suffixes
pub open spec fn has_prefix(s: Seq<char>, p: Seq<char>) -> bool {
    p.len() <= s.len() && s.take(p.len() as int) == p
}

pub open spec fn has_suffix(s: Seq<char>, p: Seq<char>) -> bool {
    p.len() <= s.len() && s.skip(s.len() - p.len()) == p
}

/// Whether `pat` stands in `s` at position `i`.
pub open spec fn occurs_at(s: Seq<char>, pat: Seq<char>, i: int) -> bool {
    0 <= i && i + pat.len() <= s.len() && s.subrange(i, i + pat.len()) == pat
}

pub fn matches_at(s: &Vec<char>, pat: &Vec<char>, i: usize) -> (r: bool)
    requires
        i + pat.len() <= s.len(),
    ensures
        r == occurs_at(s@, pat@, i as int),
{
    let mut k: usize = 0;
    while k < pat.len()
        invariant
            k <= pat.len(),
            i + pat.len() <= s.len(),
            forall|j: int| 0 <= j < k ==> s@[i + j] == pat@[j],
        decreases pat.len() - k,
    {
        if s[i + k] != pat[k] {
            assert(s@.subrange(i as int, i + pat.len())[k as int] != pat@[k as int]);
            return false;
        }
        k = k + 1;
    }
    assert(s@.subrange(i as int, i + pat.len()) =~= pat@);
    true
}

/// Whether two texts are the same.
pub fn same_chars(a: &Vec<char>, b: &Vec<char>) -> (r: bool)
    ensures
        r == (a@ == b@),
{
    if a.len() != b.len() {
        return false;
    }
    if a.len() == 0 {
        assert(a@ =~= b@);
        return true;
    }
    let r = matches_at(a, b, 0);
    assert(a@.subrange(0, b@.len() as int) =~= a@);
    r
}

pub fn starts_with(s: &Vec<char>, p: &Vec<char>) -> (r: bool)
    ensures
        r == has_prefix(s@, p@),
{
    if p.len() > s.len() {
        return false;
    }
    let r = matches_at(s, p, 0);
    assert(s@.subrange(0, p@.len() as int) =~= s@.take(p@.len() as int));
    r
}

pub fn ends_with(s: &Vec<char>, p: &Vec<char>) -> (r: bool)
    ensures
        r == has_suffix(s@, p@),
{
    if p.len() > s.len() {
        return false;
    }
    let r = matches_at(s, p, s.len() - p.len());
    assert(s@.subrange(s@.len() - p@.len(), s@.len() as int) =~= s@.skip(
        s@.len() - p@.len(),
    ));
    r
}

/// `s` with every leading copy of `p` removed, as `str::trim_start_matches` does.
pub open spec fn strip_prefixes(s: Seq<char>, p: Seq<char>) -> Seq<char>
    decreases s.len(),
{
    if p.len() > 0 && has_prefix(s, p) {
        strip_prefixes(s.skip(p.len() as int), p)
    } else {
        s
    }
}

/// `s` with every trailing copy of `p` removed, as `str::trim_end_matches` does.
pub open spec fn strip_suffixes(s: Seq<char>, p: Seq<char>) -> Seq<char>
    decreases s.len(),
{
    if p.len() > 0 && has_suffix(s, p) {
        strip_suffixes(s.take(s.len() - p.len()), p)
    } else {
        s
    }
}

pub fn strip_prefixes_chars(s: &Vec<char>, p: &Vec<char>) -> (r: Vec<char>)
    ensures
        r@ == strip_prefixes(s@, p@),
{
    let n = s.len();
    if p.len() == 0 {
        return copy_range(s, 0, n);
    }
    let mut i: usize = 0;
    assert(s@.subrange(0, n as int) =~= s@);
    while p.len() <= n - i && matches_at(s, p, i)
        invariant
            i <= n == s.len(),
            p@.len() > 0,
            strip_prefixes(s@, p@) == strip_prefixes(s@.subrange(i as int, n as int), p@),
        decreases n - i,
    {
        let ghost rest = s@.subrange(i as int, n as int);
        assert(rest.take(p@.len() as int) =~= s@.subrange(i as int, i + p@.len()));
        assert(rest.skip(p@.len() as int) =~= s@.subrange(i + p@.len(), n as int));
        i = i + p.len();
    }
    proof {
        let rest = s@.subrange(i as int, n as int);
        if p@.len() <= rest.len() {
            assert(rest.take(p@.len() as int) =~= s@.subrange(i as int, i + p@.len()));
        }
    }
    copy_range(s, i, n)
}

pub fn strip_suffixes_chars(s: &Vec<char>, p: &Vec<char>) -> (r: Vec<char>)
    ensures
        r@ == strip_suffixes(s@, p@),
{
    if p.len() == 0 {
        return copy_range(s, 0, s.len());
    }
    let mut j: usize = s.len();
    assert(s@.take(j as int) =~= s@);
    while j >= p.len() && matches_at(s, p, j - p.len())
        invariant
            j <= s.len(),
            p@.len() > 0,
            strip_suffixes(s@, p@) == strip_suffixes(s@.take(j as int), p@),
        decreases j,
    {
        let ghost head = s@.take(j as int);
        assert(head.skip(head.len() - p@.len()) =~= s@.subrange(j - p@.len(), j as int));
        assert(head.take(head.len() - p@.len()) =~= s@.take(j - p@.len()));
        j = j - p.len();
    }
    proof {
        let head = s@.take(j as int);
        if p@.len() <= head.len() {
            assert(head.skip(head.len() - p@.len()) =~= s@.subrange(j - p@.len(), j as int));
        }
    }
    assert(s@.subrange(0, j as int) =~= s@.take(j as int));
    copy_range(s, 0, j)
}

// ---------------------------------------------------------------------------
// Splitting, joining and replacing
/// The pieces of `s[start..]` between the occurrences of `pat`, scanning from `i`,
/// leftmost first and without overlap, as `str::split` yields them.
pub open spec fn pieces_from(s: Seq<char>, pat: Seq<char>, start: int, i: int) -> Seq<
    Seq<char>,
>
    decreases s.len() - i,
{
    if pat.len() == 0 || i < 0 || i + pat.len() > s.len() {
        seq![s.subrange(start, s.len() as int)]
    } else if s.subrange(i, i + pat.len()) == pat {
        seq![s.subrange(start, i)] + pieces_from(s, pat, i + pat.len(), i + pat.len())
    } else {
        pieces_from(s, pat, start, i + 1)
    }
}

pub open spec fn pieces(s: Seq<char>, pat: Seq<char>) -> Seq<Seq<char>> {
    pieces_from(s, pat, 0, 0)
}

/// Splits `s` at each occurrence of `pat`.
pub fn split_on(s: &Vec<char>, pat: &Vec<char>) -> (r: Vec<Vec<char>>)
    requires
        pat@.len() > 0,
    ensures
        views(r@) == pieces(s@, pat@),
        r@.len() >= 1,
{
    let n = s.len();
    let plen = pat.len();
    let mut out: Vec<Vec<char>> = Vec::new();
    let mut start: usize = 0;
    let mut i: usize = 0;
    while plen <= n && i <= n - plen
        invariant
            n == s.len(),
            plen == pat@.len() > 0,
            start <= i <= n,
            views(out@) + pieces_from(s@, pat@, start as int, i as int) == pieces(s@, pat@),
        decreases n - i,
    {
        if matches_at(s, pat, i) {
            let piece = copy_range(s, start, i);
            let ghost old_out = out@;
            out.push(piece);
            assert(views(out@) =~= views(old_out).push(piece@));
            assert(views(out@) + pieces_from(s@, pat@, (i + plen) as int, (i + plen) as int)
                =~= views(old_out) + pieces_from(s@, pat@, start as int, i as int));
            i = i + plen;
            start = i;
        } else {
            i = i + 1;
        }
    }
    let last = copy_range(s, start, n);
    let ghost old_out = out@;
    out.push(last);
    assert(views(out@) =~= views(old_out).push(last@));
    assert(views(out@) =~= views(old_out) + pieces_from(s@, pat@, start as int, i as int));
    out
}

/// The parts, with `sep` between each two of them, as `[T]::join` puts them.
pub open spec fn join(parts: Seq<Seq<char>>, sep: Seq<char>) -> Seq<char>
    decreases parts.len(),
{
    if parts.len() == 0 {
        Seq::empty()
    } else if parts.len() == 1 {
        parts[0]
    } else {
        join(parts.drop_last(), sep) + sep + parts.last()
    }
}

pub fn join_with(parts: &Vec<Vec<char>>, sep: &Vec<char>) -> (r: Vec<char>)
    ensures
        r@ == join(views(parts@), sep@),
{
    let mut out: Vec<char> = Vec::new();
    let mut i: usize = 0;
    while i < parts.len()
        invariant
            i <= parts.len(),
            out@ == join(views(parts@).take(i as int), sep@),
        decreases parts.len() - i,
    {
        let ghost before = views(parts@).take(i as int);
        if i > 0 {
            push_all(&mut out, sep);
        }
        push_all(&mut out, &parts[i]);
        i = i + 1;
        let ghost now = views(parts@).take(i as int);
        assert(now.drop_last() =~= before);
        if i == 1 {
            assert(out@ =~= now[0]);
        }
    }
    assert(views(parts@).take(parts.len() as int) =~= views(parts@));
    out
}

/// `s` with every occurrence of `from` replaced by `to`, as `str::replace` does.
pub open spec fn replace(s: Seq<char>, from: Seq<char>, to: Seq<char>) -> Seq<char> {
    join(pieces(s, from), to)
}

pub fn replace_chars(s: &Vec<char>, from: &Vec<char>, to: &Vec<char>) -> (r: Vec<char>)
    requires
        from@.len() > 0,
    ensures
        r@ == replace(s@, from@, to@),
{
    let parts = split_on(s, from);
    join_with(&parts, to)
}

// ---------------------------------------------------------------------------
// Lines
/// A line taken off before a `\n` loses one trailing `\r`.
pub open spec fn strip_cr(s: Seq<char>) -> Seq<char> {
    if s.len() > 0 && s.last() == '\r' {
        s.drop_last()
    } else {
        s
    }
}

/// The lines of `s` as `str::lines` yields them: split at `\n`, a `\r` before
/// each `\n` dropped, and no empty line after a final line ending.
pub open spec fn lines(s: Seq<char>) -> Seq<Seq<char>> {
    let parts = pieces(s, seq!['\n']);
    let body = parts.drop_last().map_values(|p: Seq<char>| strip_cr(p));
    if parts.last().len() == 0 {
        body
    } else {
        body.push(parts.last())
    }
}

pub fn strip_cr_chars(s: &Vec<char>) -> (r: Vec<char>)
    ensures
        r@ == strip_cr(s@),
{
    if s.len() > 0 && s[s.len() - 1] == '\r' {
        copy_range(s, 0, s.len() - 1)
    } else {
        copy_range(s, 0, s.len())
    }
}

pub fn lines_of(s: &Vec<char>) -> (r: Vec<Vec<char>>)
    ensures
        views(r@) == lines(s@),
{
    let nl: Vec<char> = vec!['\n'];
    assert(nl@ =~= seq!['\n']);
    let parts = split_on(s, &nl);
    let ghost ps = pieces(s@, seq!['\n']);
    let mut out: Vec<Vec<char>> = Vec::new();
    let mut i: usize = 0;
    while i + 1 < parts.len()
        invariant
            i + 1 <= parts.len(),
            views(parts@) == ps,
            views(out@) == ps.drop_last().map_values(|p: Seq<char>| strip_cr(p)).take(i as int),
        decreases parts.len() - i,
    {
        let line = strip_cr_chars(&parts[i]);
        let ghost before = out@;
        out.push(line);
        assert(views(out@) =~= views(before).push(line@));
        assert(ps[i as int] == parts@[i as int]@);
        i = i + 1;
        assert(views(out@) =~= ps.drop_last().map_values(|p: Seq<char>| strip_cr(p)).take(
            i as int,
        ));
    }
    let ghost body = ps.drop_last().map_values(|p: Seq<char>| strip_cr(p));
    assert(body.take(i as int) =~= body);
    let last = parts.len() - 1;
    if parts[last].len() > 0 {
        let piece = copy_range(&parts[last], 0, parts[last].len());
        let ghost before = out@;
        out.push(piece);
        assert(ps.last() == parts@[last as int]@);
        assert(piece@ =~= parts@[last as int]@);
        assert(views(out@) =~= views(before).push(ps.last()));
    }
    out
}

// ---------------------------------------------------------------------------
// Decimal numbers
pub open spec fn digit(d: nat) -> char {
    if d == 0 {
        '0'
    } else if d == 1 {
        '1'
    } else if d == 2 {
        '2'
    } else if d == 3 {
        '3'
    } else if d == 4 {
        '4'
    } else if d == 5 {
        '5'
    } else if d == 6 {
        '6'
    } else if d == 7 {
        '7'
    } else if d == 8 {
        '8'
    } else {
        '9'
    }
}

/// The decimal digits of `n`, most significant first, without leading zeros.
pub open spec fn decimal(n: nat) -> Seq<char>
    decreases n,
{
    if n < 10 {
        seq![digit(n)]
    } else {
        decimal(n / 10).push(digit(n % 10))
    }
}

/// An integer in decimal, with a leading `-` when it is negative.
pub open spec fn signed_decimal(i: int) -> Seq<char> {
    if i < 0 {
        seq!['-'] + decimal((-i) as nat)
    } else {
        decimal(i as nat)
    }
}

fn digit_char(d: u128) -> (c: char)
    requires
        d < 10,
    ensures
        c == digit(d as nat),
{
    if d == 0 {
        '0'
    } else if d == 1 {
        '1'
    } else if d == 2 {
        '2'
    } else if d == 3 {
        '3'
    } else if d == 4 {
        '4'
    } else if d == 5 {
        '5'
    } else if d == 6 {
        '6'
    } else if d == 7 {
        '7'
    } else if d == 8 {
        '8'
    } else {
        '9'
    }
}

/// Appends `n` in decimal.
pub fn push_decimal(out: &mut Vec<char>, n: u128)
    ensures
        final(out)@ == old(out)@ + decimal(n as nat),
    decreases n,
{
    if n >= 10 {
        push_decimal(out, n / 10);
    }
    out.push(digit_char(n % 10));
    assert(out@ =~= old(out)@ + decimal(n as nat));
}

/// Appends `i` in decimal, signed.
pub fn push_signed_decimal(out: &mut Vec<char>, i: i64)
    ensures
        final(out)@ == old(out)@ + signed_decimal(i as int),
{
    if i < 0 {
        out.push('-');
        let m: u128 = (-(i as i128)) as u128;
        push_decimal(out, m);
        assert(out@ =~= old(out)@ + signed_decimal(i as int));
    } else {
        push_decimal(out, i as u128);
    }
}

/// Characters that `str::parse::<usize>` reads as a number: an optional `+`, then
/// one or more ASCII digits.
pub open spec fn is_digit(c: char) -> bool {
    '0' <= c && c <= '9'
}

pub open spec fn digits_value(s: Seq<char>) -> nat
    decreases s.len(),
{
    if s.len() == 0 {
        0
    } else {
        digits_value(s.drop_last()) * 10 + ((s.last() as u32) - ('0' as u32)) as nat
    }
}

pub open spec fn unsigned_body(s: Seq<char>) -> Seq<char> {
    if s.len() > 0 && s[0] == '+' {
        s.drop_first()
    } else {
        s
    }
}

/// What `str::parse::<usize>` returns on `s`, as an option.
pub open spec fn parse_usize(s: Seq<char>) -> Option<nat> {
    let b = unsigned_body(s);
    if b.len() > 0 && (forall|k: int| 0 <= k < b.len() ==> is_digit(#[trigger] b[k]))
        && digits_value(b) <= usize::MAX {
        Some(digits_value(b))
    } else {
        None
    }
}

pub fn parse_usize_chars(s: &Vec<char>) -> (r: Option<usize>)
    ensures
        r matches Some(v) ==> parse_usize(s@) == Some(v as nat),
        r is None ==> parse_usize(s@) is None,
{
    let from: usize = if s.len() > 0 && s[0] == '+' {
        1
    } else {
        0
    };
    let b = copy_range(s, from, s.len());
    assert(b@ =~= unsigned_body(s@));
    if b.len() == 0 {
        return None;
    }
    let mut acc: usize = 0;
    let mut k: usize = 0;
    while k < b.len()
        invariant
            k <= b.len(),
            b@ == unsigned_body(s@),
            forall|j: int| 0 <= j < k ==> is_digit(#[trigger] b@[j]),
            acc as nat == digits_value(b@.take(k as int)),
        decreases b.len() - k,
    {
        let c = b[k];
        if !('0' <= c && c <= '9') {
            assert(!is_digit(b@[k as int]));
            assert(unsigned_body(s@)[k as int] == b@[k as int]);
            assert(!is_digit(unsigned_body(s@)[k as int]));
            assert(parse_usize(s@) is None);
            return None;
        }
        let d: usize = ((c as u32) - ('0' as u32)) as usize;
        assert(b@.take(k + 1).drop_last() =~= b@.take(k as int));
        assert(b@.take(k + 1).last() == c);
        assert(digits_value(b@.take(k + 1)) == acc * 10 + d);
        if acc > (usize::MAX - d) / 10 {
            proof {
                lemma_digits_prefix_le(b@, k + 1);
                let m = usize::MAX as int;
                let a = acc as int;
                let dd = d as int;
                assert(a * 10 + dd > m) by (nonlinear_arith)
                    requires
                        a > (m - dd) / 10,
                        0 <= dd <= 9,
                        m > 9,
                ;
                assert(unsigned_body(s@) == b@);
                assert(digits_value(unsigned_body(s@)) > usize::MAX);
                assert(parse_usize(s@) is None);
            }
            return None;
        }
        acc = acc * 10 + d;
        k = k + 1;
    }
    assert(b@.take(b.len() as int) =~= b@);
    Some(acc)
}

/// The value of a digit string is at least that of each of its prefixes.
proof fn lemma_digits_prefix_le(s: Seq<char>, k: int)
    requires
        0 <= k <= s.len(),
    ensures
        digits_value(s.take(k)) <= digits_value(s),
    decreases s.len() - k,
{
    if k < s.len() {
        lemma_digits_prefix_le(s, k + 1);
        assert(s.take(k + 1).drop_last() =~= s.take(k));
        assert(digits_value(s.take(k + 1)) == digits_value(s.take(k)) * 10 + ((s.take(k + 1).last() as u32) - ('0' as u32)) as nat);
    } else {
        assert(s.take(k) =~= s);
    }
}

} // verus!
