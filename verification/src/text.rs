//! Character-sequence helpers shared by the parser, the variable system and
//! the report writers. Everything works on `Vec<char>` whose view is the
//! `Seq<char>` of a Rust string, so contracts can speak of string contents.

use vstd::prelude::*;

verus! {

/// The characters that carry the Unicode `White_Space` property, which is
/// exactly the set that `char::is_whitespace` accepts.
pub open spec fn is_ws(c: char) -> bool {
    let n = c as u32;
    ||| (0x9 <= n && n <= 0xd)
    ||| n == 0x20
    ||| n == 0x85
    ||| n == 0xa0
    ||| n == 0x1680
    ||| (0x2000 <= n && n <= 0x200a)
    ||| n == 0x2028
    ||| n == 0x2029
    ||| n == 0x202f
    ||| n == 0x205f
    ||| n == 0x3000
}

/// `char::is_whitespace`, written out over the `White_Space` code points.
pub fn is_whitespace(c: char) -> (res: bool)
    ensures
        res == is_ws(c),
{
    let n = c as u32;
    (0x9 <= n && n <= 0xd) || n == 0x20 || n == 0x85 || n == 0xa0 || n == 0x1680 || (0x2000 <= n
        && n <= 0x200a) || n == 0x2028 || n == 0x2029 || n == 0x202f || n == 0x205f || n == 0x3000
}

/// The characters of a string slice.
pub(crate) fn chars_of(s: &str) -> (res: Vec<char>)
    ensures
        res@ == s@,
{
    let mut res: Vec<char> = Vec::new();
    for c in it: s.chars()
        invariant
            res@ == it.seq().take(it.index() as int),
            it.seq() == s@,
    {
        res.push(c);
    }
    res
}

/// `String::push`: appends one character.
#[verifier::external_body]
pub(crate) fn string_push(s: &mut String, c: char)
    ensures
        final(s)@ == old(s)@.push(c),
{
    s.push(c)
}

/// A string made of the given characters.
pub(crate) fn string_of(v: &[char]) -> (res: String)
    ensures
        res@ == v@,
{
    let mut res = String::new();
    let mut i: usize = 0;
    while i < v.len()
        invariant
            i <= v.len(),
            res@ == v@.take(i as int),
        decreases v.len() - i,
    {
        string_push(&mut res, v[i]);
        i += 1;
        assert(v@.take(i as int) =~= v@.take(i - 1).push(v@[i - 1]));
    }
    assert(v@.take(v.len() as int) =~= v@);
    res
}

/// The characters of an owned string.
pub fn chars_of_string(s: &String) -> (res: Vec<char>)
    ensures
        res@ == s@,
{
    chars_of(s.as_str())
}

/// The string made of the characters of `v`.
pub fn to_string(v: &Vec<char>) -> (res: String)
    ensures
        res@ == v@,
{
    string_of(v.as_slice())
}

/// Copy of `v[lo..hi]`.
pub fn subvec(v: &Vec<char>, lo: usize, hi: usize) -> (res: Vec<char>)
    requires
        lo <= hi <= v.len(),
    ensures
        res@ == v@.subrange(lo as int, hi as int),
{
    let mut res: Vec<char> = Vec::new();
    let mut i = lo;
    while i < hi
        invariant
            lo <= i <= hi <= v.len(),
            res@ == v@.subrange(lo as int, i as int),
        decreases hi - i,
    {
        res.push(v[i]);
        i += 1;
    }
    res
}

/// Appends the characters of `src` to `dst`.
pub fn push_all(dst: &mut Vec<char>, src: &Vec<char>)
    ensures
        final(dst)@ == old(dst)@ + src@,
{
    let mut i: usize = 0;
    let ghost start = dst@;
    while i < src.len()
        invariant
            i <= src.len(),
            dst@ == start + src@.take(i as int),
        decreases src.len() - i,
    {
        dst.push(src[i]);
        i += 1;
        assert(src@.take(i as int) =~= src@.take(i - 1).push(src@[i - 1]));
    }
    assert(src@.take(src.len() as int) =~= src@);
}

/// Appends the characters of a string slice to `dst`.
pub fn push_str(dst: &mut Vec<char>, s: &str)
    ensures
        final(dst)@ == old(dst)@ + s@,
{
    let cs = chars_of(s);
    push_all(dst, &cs);
}

/// Index of the first `c` in `s`, or `s.len()` when there is none.
pub open spec fn index_of(s: Seq<char>, c: char) -> int
    decreases s.len(),
{
    if s.len() == 0 {
        0
    } else if s[0] == c {
        0
    } else {
        1 + index_of(s.drop_first(), c)
    }
}

/// `index_of` is the first position that holds `c`.
pub proof fn lemma_index_of(s: Seq<char>, c: char)
    ensures
        0 <= index_of(s, c) <= s.len(),
        index_of(s, c) < s.len() ==> s[index_of(s, c)] == c,
        forall|k: int| 0 <= k < index_of(s, c) ==> s[k] != c,
    decreases s.len(),
{
    if s.len() > 0 && s[0] != c {
        lemma_index_of(s.drop_first(), c);
        assert forall|k: int| 0 <= k < index_of(s, c) implies s[k] != c by {
            if k > 0 {
                assert(s[k] == s.drop_first()[k - 1]);
            }
        }
    }
}

/// A position `j` before which no `c` occurs, and at which `c` occurs or the
/// sequence ends, is `index_of`.
pub proof fn lemma_index_of_unique(s: Seq<char>, c: char, j: int)
    requires
        0 <= j <= s.len(),
        forall|k: int| 0 <= k < j ==> s[k] != c,
        j < s.len() ==> s[j] == c,
    ensures
        index_of(s, c) == j,
    decreases s.len(),
{
    if s.len() > 0 && j > 0 {
        assert forall|k: int| 0 <= k < j - 1 implies s.drop_first()[k] != c by {
            assert(s.drop_first()[k] == s[k + 1]);
        }
        lemma_index_of_unique(s.drop_first(), c, j - 1);
    }
}

/// Position of the first `c` at or after `start`, or `v.len()`.
pub fn find_char_from(v: &Vec<char>, c: char, start: usize) -> (res: usize)
    requires
        start <= v.len(),
    ensures
        start <= res <= v.len(),
        res - start == index_of(v@.skip(start as int), c),
{
    let mut i = start;
    while i < v.len() && v[i] != c
        invariant
            start <= i <= v.len(),
            forall|k: int| start <= k < i ==> v@[k] != c,
        decreases v.len() - i,
    {
        i += 1;
    }
    proof {
        let t = v@.skip(start as int);
        assert forall|k: int| 0 <= k < i - start implies t[k] != c by {
            assert(t[k] == v@[k + start]);
        }
        lemma_index_of_unique(t, c, i - start);
    }
    i
}

pub open spec fn starts_with(s: Seq<char>, p: Seq<char>) -> bool {
    p.len() <= s.len() && s.take(p.len() as int) == p
}

pub open spec fn ends_with(s: Seq<char>, p: Seq<char>) -> bool {
    p.len() <= s.len() && s.skip(s.len() - p.len()) == p
}

/// Whether `v[start..]` begins with `p`.
pub fn starts_with_at(v: &Vec<char>, start: usize, p: &Vec<char>) -> (res: bool)
    requires
        start <= v.len(),
    ensures
        res == starts_with(v@.skip(start as int), p@),
{
    if p.len() > v.len() - start {
        return false;
    }
    let mut i: usize = 0;
    while i < p.len()
        invariant
            i <= p.len(),
            p.len() <= v.len() - start,
            forall|k: int| 0 <= k < i ==> v@[start + k] == p@[k],
        decreases p.len() - i,
    {
        if v[start + i] != p[i] {
            assert(v@.skip(start as int).take(p.len() as int)[i as int] != p@[i as int]);
            return false;
        }
        i += 1;
    }
    assert(v@.skip(start as int).take(p.len() as int) =~= p@);
    true
}

/// Whether `v` begins with the string `p`.
pub fn starts_with_str(v: &Vec<char>, p: &str) -> (res: bool)
    ensures
        res == starts_with(v@, p@),
{
    let pv = chars_of(p);
    assert(v@.skip(0) =~= v@);
    starts_with_at(v, 0, &pv)
}

/// Whether `v` ends with `p`.
pub fn ends_with_vec(v: &Vec<char>, p: &Vec<char>) -> (res: bool)
    ensures
        res == ends_with(v@, p@),
{
    if p.len() > v.len() {
        return false;
    }
    let start = v.len() - p.len();
    let r = starts_with_at(v, start, p);
    assert(v@.skip(start as int).take(p.len() as int) =~= v@.skip(start as int));
    r
}

/// Whether `v` equals the string `s`.
pub fn eq_str(v: &Vec<char>, s: &str) -> (res: bool)
    ensures
        res == (v@ == s@),
{
    let sv = chars_of(s);
    eq_vec(v, &sv)
}

/// Whether two character vectors are equal.
pub fn eq_vec(a: &Vec<char>, b: &Vec<char>) -> (res: bool)
    ensures
        res == (a@ == b@),
{
    if a.len() != b.len() {
        return false;
    }
    let mut i: usize = 0;
    while i < a.len()
        invariant
            i <= a.len(),
            a.len() == b.len(),
            forall|k: int| 0 <= k < i ==> a@[k] == b@[k],
        decreases a.len() - i,
    {
        if a[i] != b[i] {
            return false;
        }
        i += 1;
    }
    assert(a@ =~= b@);
    true
}


pub open spec fn trim_start(s: Seq<char>) -> Seq<char>
    decreases s.len(),
{
    if s.len() > 0 && is_ws(s[0]) {
        trim_start(s.drop_first())
    } else {
        s
    }
}

pub open spec fn trim_end(s: Seq<char>) -> Seq<char>
    decreases s.len(),
{
    if s.len() > 0 && is_ws(s.last()) {
        trim_end(s.drop_last())
    } else {
        s
    }
}

/// `str::trim`: leading and trailing white space removed.
pub open spec fn trim(s: Seq<char>) -> Seq<char> {
    trim_end(trim_start(s))
}

pub proof fn lemma_trim_start_len(s: Seq<char>)
    ensures
        trim_start(s).len() <= s.len(),
        trim_start(s).len() > 0 ==> !is_ws(trim_start(s)[0]),
        trim_start(s) == s.skip(s.len() - trim_start(s).len()),
    decreases s.len(),
{
    if s.len() > 0 && is_ws(s[0]) {
        lemma_trim_start_len(s.drop_first());
        assert(s.drop_first().skip(s.drop_first().len() - trim_start(s).len()) =~= s.skip(
            s.len() - trim_start(s).len(),
        ));
    } else {
        assert(s.skip(0) =~= s);
    }
}

/// Index of the first character of `v[start..]` that is not white space.
pub fn skip_ws(v: &Vec<char>, start: usize) -> (i: usize)
    requires
        start <= v.len(),
    ensures
        start <= i <= v.len(),
        trim_start(v@.skip(start as int)) == v@.skip(i as int),
{
    let mut i = start;
    while i < v.len() && is_whitespace(v[i])
        invariant
            start <= i <= v.len(),
            trim_start(v@.skip(start as int)) == trim_start(v@.skip(i as int)),
        decreases v.len() - i,
    {
        assert(v@.skip(i as int).drop_first() =~= v@.skip(i + 1));
        i += 1;
    }
    i
}

/// End of `v[..end]` once trailing white space is dropped.
pub fn trim_end_index(v: &Vec<char>, end: usize) -> (j: usize)
    requires
        end <= v.len(),
    ensures
        j <= end,
        trim_end(v@.take(end as int)) == v@.take(j as int),
{
    let mut j = end;
    while j > 0 && is_whitespace(v[j - 1])
        invariant
            j <= end <= v.len(),
            trim_end(v@.take(end as int)) == trim_end(v@.take(j as int)),
        decreases j,
    {
        assert(v@.take(j as int).drop_last() =~= v@.take(j - 1));
        j -= 1;
    }
    j
}

/// The bounds `(a, b)` of `trim(v[lo..hi])` inside `v`.
pub fn trim_bounds(v: &Vec<char>, lo: usize, hi: usize) -> (res: (usize, usize))
    requires
        lo <= hi <= v.len(),
    ensures
        lo <= res.0 <= res.1 <= hi,
        trim(v@.subrange(lo as int, hi as int)) == v@.subrange(res.0 as int, res.1 as int),
{
    let w = subvec(v, lo, hi);
    let a = skip_ws(&w, 0);
    assert(w@.skip(0) =~= w@);
    let rest = subvec(&w, a, w.len());
    let b = trim_end_index(&rest, rest.len());
    assert(rest@.take(rest.len() as int) =~= rest@);
    assert(rest@ =~= w@.skip(a as int));
    assert(rest@.take(b as int) =~= v@.subrange(lo + a, lo + a + b));
    (lo + a, lo + a + b)
}

/// `str::trim` on a character vector.
pub fn trim_vec(v: &Vec<char>) -> (res: Vec<char>)
    ensures
        res@ == trim(v@),
{
    let (a, b) = trim_bounds(v, 0, v.len());
    assert(v@.subrange(0, v.len() as int) =~= v@);
    subvec(v, a, b)
}

/// `str::trim` on a string slice.
pub fn trim_str(s: &str) -> (res: Vec<char>)
    ensures
        res@ == trim(s@),
{
    let v = chars_of(s);
    trim_vec(&v)
}

/// `str::trim_start` on a character vector.
pub fn trim_start_vec(v: &Vec<char>) -> (res: Vec<char>)
    ensures
        res@ == trim_start(v@),
{
    let a = skip_ws(v, 0);
    assert(v@.skip(0) =~= v@);
    subvec(v, a, v.len())
}

pub open spec fn views(v: Seq<Vec<char>>) -> Seq<Seq<char>> {
    v.map_values(|x: Vec<char>| x@)
}

/// Adding a vector adds its view.
pub proof fn lemma_views_push(s: Seq<Vec<char>>, v: Vec<char>)
    ensures
        views(s.push(v)) == views(s).push(v@),
{
    assert(views(s.push(v)) =~= views(s).push(v@));
}

pub open spec fn strip_cr(l: Seq<char>) -> Seq<char> {
    if l.len() > 0 && l.last() == '\r' {
        l.drop_last()
    } else {
        l
    }
}

/// `str::lines`: pieces between `\n`, a `\r` before a `\n` dropped, and no
/// empty piece after a final `\n`.
pub open spec fn lines(s: Seq<char>) -> Seq<Seq<char>>
    decreases s.len(),
{
    if s.len() == 0 {
        seq![]
    } else {
        let i = index_of(s, '\n');
        if 0 <= i < s.len() {
            seq![strip_cr(s.take(i))] + lines(s.skip(i + 1))
        } else {
            seq![s]
        }
    }
}

/// A text has no more lines than characters.
pub proof fn lemma_lines_len(s: Seq<char>)
    ensures
        lines(s).len() <= s.len(),
    decreases s.len(),
{
    if s.len() > 0 {
        let i = index_of(s, '\n');
        lemma_index_of(s, '\n');
        if 0 <= i < s.len() {
            lemma_lines_len(s.skip(i + 1));
        }
    }
}

/// Text that is empty or ends with a newline.
pub open spec fn whole_lines(a: Seq<char>) -> bool {
    a.len() == 0 || a.last() == '\n'
}

/// The lines of two texts, the first made of whole lines, are the lines of
/// each, one after the other.
pub proof fn lemma_lines_append(a: Seq<char>, b: Seq<char>)
    requires
        whole_lines(a),
    ensures
        lines(a + b) == lines(a) + lines(b),
    decreases a.len(),
{
    if a.len() == 0 {
        assert(a + b =~= b);
        assert(lines(a) =~= Seq::<Seq<char>>::empty());
        assert(lines(a) + lines(b) =~= lines(b));
    } else {
        let i = index_of(a, '\n');
        lemma_index_of(a, '\n');
        if i >= a.len() {
            assert(a[a.len() - 1] == '\n');
            assert(false);
        }
        let ab = a + b;
        assert forall|k: int| 0 <= k < i implies ab[k] != '\n' by {
            assert(ab[k] == a[k]);
        }
        assert(ab[i] == a[i]);
        lemma_index_of_unique(ab, '\n', i);
        assert(ab.take(i) =~= a.take(i));
        assert(ab.skip(i + 1) =~= a.skip(i + 1) + b);
        let rest = a.skip(i + 1);
        assert(whole_lines(rest)) by {
            if rest.len() > 0 {
                assert(rest.last() == a.last());
            }
        }
        lemma_lines_append(rest, b);
        assert(lines(ab) =~= seq![strip_cr(a.take(i))] + (lines(rest) + lines(b)));
        assert(lines(a) =~= seq![strip_cr(a.take(i))] + lines(rest));
        assert(lines(ab) =~= lines(a) + lines(b));
    }
}

/// `str::split` on a single character separator.
pub open spec fn split(s: Seq<char>, c: char) -> Seq<Seq<char>>
    decreases s.len(),
{
    let i = index_of(s, c);
    if 0 <= i < s.len() {
        seq![s.take(i)] + split(s.skip(i + 1), c)
    } else {
        seq![s]
    }
}

/// A text without the separator is a single piece.
pub proof fn lemma_split_single(s: Seq<char>, c: char)
    requires
        !s.contains(c),
    ensures
        split(s, c) == seq![s],
{
    lemma_index_of_unique(s, c, s.len() as int);
}

/// Splitting two texts joined by the separator gives the pieces of each.
pub proof fn lemma_split_concat(x: Seq<char>, y: Seq<char>, c: char)
    ensures
        split(x + seq![c] + y, c) == split(x, c) + split(y, c),
    decreases x.len(),
{
    let s = x + seq![c] + y;
    lemma_index_of(x, c);
    let i = index_of(x, c);
    if i < x.len() {
        assert forall|k: int| 0 <= k < i implies s[k] != c by {
            assert(s[k] == x[k]);
        }
        lemma_index_of_unique(s, c, i);
        lemma_split_concat(x.skip(i + 1), y, c);
        assert(s.take(i) =~= x.take(i));
        assert(s.skip(i + 1) =~= x.skip(i + 1) + seq![c] + y);
        assert(split(s, c) =~= seq![x.take(i)] + split(x.skip(i + 1), c) + split(y, c));
    } else {
        assert forall|k: int| 0 <= k < x.len() implies s[k] != c by {
            assert(s[k] == x[k]);
        }
        lemma_index_of_unique(s, c, x.len() as int);
        assert(s.take(x.len() as int) =~= x);
        assert(s.skip(x.len() as int + 1) =~= y);
    }
}

/// Lines of `v`, as `str::lines` yields them.
pub fn lines_of(v: &Vec<char>) -> (res: Vec<Vec<char>>)
    ensures
        views(res@) == lines(v@),
{
    let mut res: Vec<Vec<char>> = Vec::new();
    let mut pos: usize = 0;
    assert(v@.skip(0) =~= v@);
    while pos < v.len()
        invariant
            pos <= v.len(),
            views(res@) + lines(v@.skip(pos as int)) == lines(v@),
        decreases v.len() - pos,
    {
        let ghost t = v@.skip(pos as int);
        let i = find_char_from(v, '\n', pos);
        proof {
            lemma_index_of(t, '\n');
        }
        let mut piece = subvec(v, pos, i);
        assert(piece@ =~= t.take(i - pos));
        if i < v.len() && piece.len() > 0 && piece[piece.len() - 1] == '\r' {
            piece.pop();
        }
        let ghost old_res = res@;
        res.push(piece);
        assert(views(res@) =~= views(old_res).push(piece@));
        if i < v.len() {
            assert(piece@ == strip_cr(t.take(i - pos)));
            assert(t.skip(i - pos + 1) =~= v@.skip(i + 1));
            pos = i + 1;
        } else {
            assert(lines(t) == seq![t]);
            assert(t.take(i - pos) =~= t);
            assert(v@.skip(v.len() as int) =~= Seq::<char>::empty());
            pos = v.len();
            assert(lines(v@.skip(pos as int)) =~= Seq::<Seq<char>>::empty());
            assert(views(res@) =~= views(old_res) + lines(t));
        }
    }
    assert(v@.skip(pos as int) =~= Seq::<char>::empty());
    assert(views(res@) + Seq::<Seq<char>>::empty() =~= views(res@));
    res
}

/// Pieces of `v[lo..hi]` split at every `c`, as `str::split` yields them.
pub fn split_char(v: &Vec<char>, c: char) -> (res: Vec<Vec<char>>)
    ensures
        views(res@) == split(v@, c),
{
    let mut res: Vec<Vec<char>> = Vec::new();
    let mut pos: usize = 0;
    assert(v@.skip(0) =~= v@);
    loop
        invariant
            pos <= v.len(),
            views(res@) + split(v@.skip(pos as int), c) == split(v@, c),
        decreases v.len() - pos,
    {
        let ghost t = v@.skip(pos as int);
        let i = find_char_from(v, c, pos);
        proof {
            lemma_index_of(t, c);
        }
        let piece = subvec(v, pos, i);
        assert(piece@ =~= t.take(i - pos));
        let ghost old_res = res@;
        res.push(piece);
        assert(views(res@) =~= views(old_res).push(piece@));
        if i < v.len() {
            assert(t.skip(i - pos + 1) =~= v@.skip(i + 1));
            pos = i + 1;
        } else {
            assert(t.take(i - pos) =~= t);
            assert(views(res@) =~= views(old_res) + split(t, c));
            return res;
        }
    }
}

/// `str::split(c).map(str::trim)`: the pieces, each trimmed.
pub open spec fn split_trimmed(s: Seq<char>, c: char) -> Seq<Seq<char>> {
    split(s, c).map_values(|p: Seq<char>| trim(p))
}

/// Pieces of `v` split at `c`, each trimmed.
pub fn split_trim(v: &Vec<char>, c: char) -> (res: Vec<Vec<char>>)
    ensures
        views(res@) == split_trimmed(v@, c),
{
    let parts = split_char(v, c);
    let mut res: Vec<Vec<char>> = Vec::new();
    let mut i: usize = 0;
    while i < parts.len()
        invariant
            i <= parts.len(),
            views(parts@) == split(v@, c),
            views(res@) == split_trimmed(v@, c).take(i as int),
        decreases parts.len() - i,
    {
        let t = trim_vec(&parts[i]);
        let ghost old_res = res@;
        res.push(t);
        assert(views(parts@)[i as int] == parts@[i as int]@);
        assert(split_trimmed(v@, c)[i as int] == trim(split(v@, c)[i as int]));
        assert(views(res@) =~= views(old_res).push(t@));
        assert(views(res@) =~= split_trimmed(v@, c).take(i + 1));
        i += 1;
    }
    assert(split_trimmed(v@, c).take(i as int) =~= split_trimmed(v@, c));
    res
}


pub open spec fn is_digit(c: char) -> bool {
    48 <= (c as u32) <= 57
}

pub open spec fn digit_value(c: char) -> nat {
    ((c as u32) - 48) as nat
}

pub open spec fn digit_char(d: nat) -> char {
    ((48 + d) as u8) as char
}

/// Decimal digits of `n`, most significant first, without leading zeros.
pub open spec fn decimal(n: nat) -> Seq<char>
    decreases n,
{
    if n < 10 {
        seq![digit_char(n)]
    } else {
        decimal(n / 10).push(digit_char(n % 10))
    }
}

/// Decimal text of a signed integer, as `i64::to_string` writes it.
pub open spec fn int_decimal(n: int) -> Seq<char> {
    if n < 0 {
        seq!['-'] + decimal((-n) as nat)
    } else {
        decimal(n as nat)
    }
}

pub open spec fn all_digits(s: Seq<char>) -> bool {
    forall|i: int| 0 <= i < s.len() ==> is_digit(#[trigger] s[i])
}

/// Value of a run of decimal digits.
pub open spec fn digits_value(s: Seq<char>) -> nat
    decreases s.len(),
{
    if s.len() == 0 {
        0
    } else {
        digits_value(s.drop_last()) * 10 + digit_value(s.last())
    }
}

/// What `str::parse` gives for an unsigned integer type whose largest value
/// is `max`: an optional `+`, then one or more ASCII digits whose value fits.
pub open spec fn parse_unsigned(s: Seq<char>, max: nat) -> Option<nat> {
    let d = if s.len() > 0 && s[0] == '+' {
        s.drop_first()
    } else {
        s
    };
    if d.len() > 0 && all_digits(d) && digits_value(d) <= max {
        Some(digits_value(d))
    } else {
        None
    }
}

pub open spec fn i64_max() -> nat {
    9223372036854775807
}

/// What `str::parse::<i64>` gives: an optional sign, then one or more ASCII
/// digits whose value lies in the range of `i64`.
pub open spec fn parse_i64_spec(s: Seq<char>) -> Option<int> {
    if s.len() > 0 && s[0] == '-' {
        let d = s.drop_first();
        if d.len() > 0 && all_digits(d) && digits_value(d) <= i64_max() + 1 {
            Some(-(digits_value(d) as int))
        } else {
            None
        }
    } else {
        match parse_unsigned(s, i64_max()) {
            Some(v) => Some(v as int),
            None => None,
        }
    }
}

/// The decimal text of `n` is a non-empty run of digits whose value is `n`.
pub proof fn lemma_decimal_digits(n: nat)
    ensures
        decimal(n).len() > 0,
        all_digits(decimal(n)),
        digits_value(decimal(n)) == n,
    decreases n,
{
    if n < 10 {
        let d = decimal(n);
        assert(d.drop_last() =~= Seq::<char>::empty());
        assert(digits_value(Seq::<char>::empty()) == 0);
    } else {
        lemma_decimal_digits(n / 10);
        let d = decimal(n);
        assert(d.drop_last() =~= decimal(n / 10));
        assert forall|i: int| 0 <= i < d.len() implies is_digit(#[trigger] d[i]) by {
            if i < d.len() - 1 {
                assert(d[i] == decimal(n / 10)[i]);
            }
        }
    }
}

/// Reading the decimal text of an integer in the range of `i64` gives the
/// integer back.
pub proof fn lemma_int_decimal_parses(n: int)
    requires
        i64::MIN <= n <= i64::MAX,
    ensures
        parse_i64_spec(int_decimal(n)) == Some(n),
{
    if n < 0 {
        lemma_decimal_digits((-n) as nat);
        let s = int_decimal(n);
        assert(s.drop_first() =~= decimal((-n) as nat));
    } else {
        lemma_decimal_digits(n as nat);
        let s = decimal(n as nat);
        assert(is_digit(s[0]));
    }
}

/// A longer run of digits never has a smaller value than its prefix.
pub proof fn lemma_digits_value_prefix(s: Seq<char>, k: int)
    requires
        0 <= k <= s.len(),
        all_digits(s),
    ensures
        digits_value(s.take(k)) <= digits_value(s),
    decreases s.len() - k,
{
    if k < s.len() {
        lemma_digits_value_prefix(s, k + 1);
        let t = s.take(k + 1);
        assert(t.drop_last() =~= s.take(k));
    } else {
        assert(s.take(k) =~= s);
    }
}

/// Parses `v[lo..hi]` as a run of decimal digits whose value is at most `max`.
pub fn parse_digits(v: &Vec<char>, lo: usize, hi: usize, max: u64) -> (res: Option<u64>)
    requires
        lo <= hi <= v.len(),
    ensures
        ({
            let d = v@.subrange(lo as int, hi as int);
            match res {
                Some(x) => d.len() > 0 && all_digits(d) && digits_value(d) <= max && x
                    == digits_value(d),
                None => !(d.len() > 0 && all_digits(d) && digits_value(d) <= max),
            }
        }),
{
    let ghost d = v@.subrange(lo as int, hi as int);
    if lo == hi {
        return None;
    }
    let mut acc: u64 = 0;
    let mut i = lo;
    while i < hi
        invariant
            lo <= i <= hi <= v.len(),
            d == v@.subrange(lo as int, hi as int),
            all_digits(d.take(i - lo)),
            acc == digits_value(d.take(i - lo)),
            acc <= max,
        decreases hi - i,
    {
        let c = v[i];
        let n = c as u32;
        if n < 48 || n > 57 {
            assert(!is_digit(d[i - lo]));
            return None;
        }
        let dv = (n - 48) as u64;
        assert(d.take(i - lo + 1).drop_last() =~= d.take(i - lo));
        assert(d.take(i - lo + 1).last() == c);
        if dv > max || acc > (max - dv) / 10 {
            proof {
                assert(digits_value(d.take(i - lo + 1)) == acc * 10 + dv);
                if all_digits(d) {
                    lemma_digits_value_prefix(d, i - lo + 1);
                }
            }
            return None;
        }
        acc = acc * 10 + dv;
        i += 1;
        assert(all_digits(d.take(i - lo))) by {
            assert forall|k: int| 0 <= k < i - lo implies is_digit(#[trigger] d.take(i - lo)[k]) by {
                if k < i - lo - 1 {
                    assert(d.take(i - lo)[k] == d.take(i - lo - 1)[k]);
                }
            }
        }
    }
    assert(d.take(hi - lo) =~= d);
    Some(acc)
}

/// `str::parse` for an unsigned type whose largest value is `max`.
pub fn parse_unsigned_vec(v: &Vec<char>, max: u64) -> (res: Option<u64>)
    ensures
        match res {
            Some(x) => parse_unsigned(v@, max as nat) == Some(x as nat),
            None => parse_unsigned(v@, max as nat) is None,
        },
{
    let lo: usize = if v.len() > 0 && v[0] == '+' {
        1
    } else {
        0
    };
    assert(lo == 1 ==> v@.subrange(1, v.len() as int) =~= v@.drop_first());
    assert(lo == 0 ==> v@.subrange(0, v.len() as int) =~= v@);
    parse_digits(v, lo, v.len(), max)
}

/// `str::parse::<i64>`.
pub fn parse_i64_vec(v: &Vec<char>) -> (res: Option<i64>)
    ensures
        match res {
            Some(x) => parse_i64_spec(v@) == Some(x as int),
            None => parse_i64_spec(v@) is None,
        },
{
    if v.len() > 0 && v[0] == '-' {
        assert(v@.subrange(1, v.len() as int) =~= v@.drop_first());
        match parse_digits(v, 1, v.len(), 9223372036854775808u64) {
            Some(x) => {
                if x == 9223372036854775808u64 {
                    Some(i64::MIN)
                } else {
                    Some(-(x as i64))
                }
            },
            None => None,
        }
    } else {
        match parse_unsigned_vec(v, 9223372036854775807u64) {
            Some(x) => Some(x as i64),
            None => None,
        }
    }
}

/// `str::parse::<u16>`.
pub fn parse_u16_vec(v: &Vec<char>) -> (res: Option<u16>)
    ensures
        match res {
            Some(x) => parse_unsigned(v@, 65535) == Some(x as nat),
            None => parse_unsigned(v@, 65535) is None,
        },
{
    match parse_unsigned_vec(v, 65535) {
        Some(x) => Some(x as u16),
        None => None,
    }
}

/// `str::parse::<u32>`.
pub fn parse_u32_vec(v: &Vec<char>) -> (res: Option<u32>)
    ensures
        match res {
            Some(x) => parse_unsigned(v@, 4294967295) == Some(x as nat),
            None => parse_unsigned(v@, 4294967295) is None,
        },
{
    match parse_unsigned_vec(v, 4294967295) {
        Some(x) => Some(x as u32),
        None => None,
    }
}

/// Appends the decimal digits of `n`.
pub fn push_decimal(dst: &mut Vec<char>, n: u64)
    ensures
        final(dst)@ == old(dst)@ + decimal(n as nat),
    decreases n,
{
    if n >= 10 {
        push_decimal(dst, n / 10);
    }
    let d = (n % 10) as u8;
    dst.push((48u8 + d) as char);
    proof {
        if n >= 10 {
            assert(decimal(n as nat) == decimal((n / 10) as nat).push(digit_char((n % 10) as nat)));
        }
    }
    assert(final(dst)@ =~= old(dst)@ + decimal(n as nat));
}

/// Appends the decimal text of a signed integer.
pub fn push_i64(dst: &mut Vec<char>, n: i64)
    ensures
        final(dst)@ == old(dst)@ + int_decimal(n as int),
{
    if n < 0 {
        dst.push('-');
        let m: u64 = if n == i64::MIN {
            9223372036854775808u64
        } else {
            (-n) as u64
        };
        push_decimal(dst, m);
        assert(final(dst)@ =~= old(dst)@ + int_decimal(n as int));
    } else {
        push_decimal(dst, n as u64);
    }
}

/// Decimal text of an unsigned integer.
pub fn decimal_vec(n: u64) -> (res: Vec<char>)
    ensures
        res@ == decimal(n as nat),
{
    let mut v: Vec<char> = Vec::new();
    push_decimal(&mut v, n);
    assert(v@ =~= decimal(n as nat));
    v
}


/// `[..].join(sep)`: the parts with `sep` between each two.
pub open spec fn join(parts: Seq<Seq<char>>, sep: Seq<char>) -> Seq<char>
    decreases parts.len(),
{
    if parts.len() == 0 {
        seq![]
    } else if parts.len() == 1 {
        parts[0]
    } else {
        join(parts.drop_last(), sep) + sep + parts.last()
    }
}

/// Joins the parts with `sep` between each two.
pub fn join_vecs(parts: &Vec<Vec<char>>, sep: &Vec<char>) -> (res: Vec<char>)
    ensures
        res@ == join(views(parts@), sep@),
{
    let mut res: Vec<char> = Vec::new();
    let mut i: usize = 0;
    while i < parts.len()
        invariant
            i <= parts.len(),
            res@ == join(views(parts@).take(i as int), sep@),
        decreases parts.len() - i,
    {
        let ghost before = res@;
        if i > 0 {
            push_all(&mut res, sep);
        }
        push_all(&mut res, &parts[i]);
        proof {
            let t = views(parts@).take(i + 1);
            assert(t.drop_last() =~= views(parts@).take(i as int));
            assert(t.last() == parts@[i as int]@);
            if i == 0 {
                assert(join(views(parts@).take(0), sep@) =~= Seq::<char>::empty());
                assert(res@ =~= t[0]);
            } else {
                assert(res@ =~= before + sep@ + t.last());
            }
        }
        i += 1;
    }
    assert(views(parts@).take(parts.len() as int) =~= views(parts@));
    res
}

/// Appends the strings with `sep` between each two.
pub fn push_joined(dst: &mut Vec<char>, parts: &Vec<String>, sep: &str)
    ensures
        final(dst)@ == old(dst)@ + join(string_views(parts@), sep@),
{
    let ghost start = dst@;
    let mut i: usize = 0;
    while i < parts.len()
        invariant
            i <= parts.len(),
            dst@ == start + join(string_views(parts@).take(i as int), sep@),
        decreases parts.len() - i,
    {
        let ghost before = dst@;
        if i > 0 {
            push_str(dst, sep);
        }
        push_str(dst, parts[i].as_str());
        proof {
            let t = string_views(parts@).take(i + 1);
            assert(t.drop_last() =~= string_views(parts@).take(i as int));
            assert(t.last() == parts@[i as int]@);
            if i == 0 {
                assert(join(string_views(parts@).take(0), sep@) =~= Seq::<char>::empty());
                assert(dst@ =~= start + t[0]);
            } else {
                assert(dst@ =~= before + sep@ + t.last());
            }
        }
        i += 1;
    }
    assert(string_views(parts@).take(parts.len() as int) =~= string_views(parts@));
}

/// `s` padded with spaces on the left to at least `width` characters.
pub open spec fn pad_left(s: Seq<char>, width: nat) -> Seq<char> {
    if s.len() >= width {
        s
    } else {
        Seq::new((width - s.len()) as nat, |i: int| ' ') + s
    }
}

/// Appends `n` copies of `c`.
pub fn push_repeat(dst: &mut Vec<char>, c: char, n: usize)
    ensures
        final(dst)@ == old(dst)@ + Seq::new(n as nat, |i: int| c),
{
    let ghost start = dst@;
    let mut k: usize = 0;
    while k < n
        invariant
            k <= n,
            dst@ == start + Seq::new(k as nat, |i: int| c),
        decreases n - k,
    {
        dst.push(c);
        k += 1;
        assert(dst@ =~= start + Seq::new(k as nat, |i: int| c));
    }
}

/// Appends the decimal digits of `n`, right-aligned in `width` columns
/// (`{:width$}`).
pub fn push_padded_decimal(dst: &mut Vec<char>, n: u64, width: usize)
    ensures
        final(dst)@ == old(dst)@ + pad_left(decimal(n as nat), width as nat),
{
    let mut digits: Vec<char> = Vec::new();
    push_decimal(&mut digits, n);
    assert(digits@ =~= decimal(n as nat));
    if digits.len() < width {
        push_repeat(dst, ' ', width - digits.len());
    }
    push_all(dst, &digits);
    assert(final(dst)@ =~= old(dst)@ + pad_left(decimal(n as nat), width as nat));
}

/// Length of the run of characters at the start of `s` that satisfy `p`.
pub open spec fn run_len(s: Seq<char>, p: spec_fn(char) -> bool) -> int
    decreases s.len(),
{
    if s.len() > 0 && p(s[0]) {
        1 + run_len(s.drop_first(), p)
    } else {
        0
    }
}

pub proof fn lemma_run_len(s: Seq<char>, p: spec_fn(char) -> bool)
    ensures
        0 <= run_len(s, p) <= s.len(),
        forall|k: int| 0 <= k < run_len(s, p) ==> p(#[trigger] s[k]),
        run_len(s, p) < s.len() ==> !p(s[run_len(s, p)]),
    decreases s.len(),
{
    if s.len() > 0 && p(s[0]) {
        lemma_run_len(s.drop_first(), p);
        assert forall|k: int| 0 <= k < run_len(s, p) implies p(#[trigger] s[k]) by {
            if k > 0 {
                assert(s[k] == s.drop_first()[k - 1]);
            }
        }
    }
}

pub proof fn lemma_run_len_unique(s: Seq<char>, p: spec_fn(char) -> bool, j: int)
    requires
        0 <= j <= s.len(),
        forall|k: int| 0 <= k < j ==> p(#[trigger] s[k]),
        j < s.len() ==> !p(s[j]),
    ensures
        run_len(s, p) == j,
    decreases s.len(),
{
    if s.len() > 0 && j > 0 {
        assert forall|k: int| 0 <= k < j - 1 implies p(#[trigger] s.drop_first()[k]) by {
            assert(s.drop_first()[k] == s[k + 1]);
        }
        lemma_run_len_unique(s.drop_first(), p, j - 1);
    } else if s.len() > 0 {
        assert(!p(s[0]));
    }
}

pub open spec fn not_ws() -> spec_fn(char) -> bool {
    |c: char| !is_ws(c)
}

/// End of the run of non-white-space characters that starts at `start`.
pub fn word_end(v: &Vec<char>, start: usize) -> (res: usize)
    requires
        start <= v.len(),
    ensures
        start <= res <= v.len(),
        res - start == run_len(v@.skip(start as int), not_ws()),
{
    let mut i = start;
    while i < v.len() && !is_whitespace(v[i])
        invariant
            start <= i <= v.len(),
            forall|k: int| start <= k < i ==> !is_ws(#[trigger] v@[k]),
        decreases v.len() - i,
    {
        i += 1;
    }
    proof {
        let t = v@.skip(start as int);
        assert forall|k: int| 0 <= k < i - start implies #[trigger] not_ws()(t[k]) by {
            assert(t[k] == v@[k + start]);
        }
        lemma_run_len_unique(t, not_ws(), i - start);
    }
    i
}

/// `str::split_whitespace`: the maximal runs of non-white-space characters.
pub open spec fn split_ws(s: Seq<char>) -> Seq<Seq<char>>
    decreases s.len(),
{
    if s.len() == 0 {
        seq![]
    } else if is_ws(s[0]) {
        split_ws(s.drop_first())
    } else {
        let k = 1 + run_len(s.drop_first(), not_ws());
        proof {
            lemma_run_len(s.drop_first(), not_ws());
        }
        seq![s.take(k)] + split_ws(s.skip(k))
    }
}

/// The white-space separated words of `v`.
pub fn split_ws_vec(v: &Vec<char>) -> (res: Vec<Vec<char>>)
    ensures
        views(res@) == split_ws(v@),
{
    let mut res: Vec<Vec<char>> = Vec::new();
    let mut pos: usize = 0;
    assert(v@.skip(0) =~= v@);
    while pos < v.len()
        invariant
            pos <= v.len(),
            views(res@) + split_ws(v@.skip(pos as int)) == split_ws(v@),
        decreases v.len() - pos,
    {
        let ghost t = v@.skip(pos as int);
        if is_whitespace(v[pos]) {
            assert(t.drop_first() =~= v@.skip(pos + 1));
            pos += 1;
        } else {
            let e = word_end(v, pos + 1);
            proof {
                assert(t.drop_first() =~= v@.skip(pos + 1));
                lemma_run_len(t.drop_first(), not_ws());
            }
            let w = subvec(v, pos, e);
            assert(w@ =~= t.take(e - pos));
            assert(t.skip(e - pos) =~= v@.skip(e as int));
            let ghost old_res = res@;
            res.push(w);
            assert(views(res@) =~= views(old_res).push(w@));
            pos = e;
        }
    }
    assert(v@.skip(pos as int) =~= Seq::<char>::empty());
    res
}

/// `str::replace` for a non-empty pattern: every non-overlapping occurrence
/// of `from`, found left to right, replaced by `to`.
pub open spec fn replace(s: Seq<char>, from: Seq<char>, to: Seq<char>) -> Seq<char>
    decreases s.len(),
{
    if from.len() == 0 || s.len() < from.len() {
        s
    } else if s.take(from.len() as int) == from {
        to + replace(s.skip(from.len() as int), from, to)
    } else {
        seq![s[0]] + replace(s.drop_first(), from, to)
    }
}

/// Replaces every non-overlapping occurrence of `from` in `v` by `to`.
pub fn replace_vec(v: &Vec<char>, from: &Vec<char>, to: &Vec<char>) -> (res: Vec<char>)
    requires
        from.len() > 0,
    ensures
        res@ == replace(v@, from@, to@),
{
    let mut res: Vec<char> = Vec::new();
    let mut pos: usize = 0;
    assert(v@.skip(0) =~= v@);
    while pos < v.len()
        invariant
            pos <= v.len(),
            from.len() > 0,
            res@ + replace(v@.skip(pos as int), from@, to@) == replace(v@, from@, to@),
        decreases v.len() - pos,
    {
        let ghost t = v@.skip(pos as int);
        let ghost before = res@;
        if from.len() <= v.len() - pos && starts_with_at(v, pos, from) {
            push_all(&mut res, to);
            assert(t.skip(from.len() as int) =~= v@.skip(pos + from.len()));
            assert(res@ + replace(v@.skip(pos + from.len()), from@, to@) =~= before + replace(
                t,
                from@,
                to@,
            ));
            pos += from.len();
        } else if from.len() > v.len() - pos {
            push_all(&mut res, &subvec(v, pos, v.len()));
            assert(res@ =~= before + t);
            assert(v@.skip(v.len() as int) =~= Seq::<char>::empty());
            pos = v.len();
            assert(replace(v@.skip(pos as int), from@, to@) =~= Seq::<char>::empty());
            assert(res@ + replace(v@.skip(pos as int), from@, to@) =~= before + replace(
                t,
                from@,
                to@,
            ));
        } else {
            res.push(v[pos]);
            assert(t.drop_first() =~= v@.skip(pos + 1));
            assert(res@ + replace(v@.skip(pos + 1), from@, to@) =~= before + replace(
                t,
                from@,
                to@,
            ));
            pos += 1;
        }
    }
    assert(v@.skip(pos as int) =~= Seq::<char>::empty());
    assert(res@ + Seq::<char>::empty() =~= res@);
    res
}

/// Whether `p` occurs in `s`.
pub open spec fn contains(s: Seq<char>, p: Seq<char>) -> bool {
    exists|i: int| 0 <= i <= s.len() - p.len() && #[trigger] s.subrange(i, i + p.len()) == p
}

/// Whether `p` occurs in `v`.
pub fn contains_vec(v: &Vec<char>, p: &Vec<char>) -> (res: bool)
    ensures
        res == contains(v@, p@),
{
    if p.len() > v.len() {
        return false;
    }
    let mut i: usize = 0;
    loop
        invariant
            p.len() <= v.len(),
            i <= v.len() - p.len(),
            forall|k: int| 0 <= k < i ==> #[trigger] v@.subrange(k, k + p.len()) != p@,
        decreases v.len() - p.len() - i,
    {
        assert(v@.skip(i as int).take(p.len() as int) =~= v@.subrange(i as int, i + p.len()));
        if starts_with_at(v, i, p) {
            return true;
        }
        if i == v.len() - p.len() {
            return false;
        }
        i += 1;
    }
}

/// Whether the character `c` occurs in `v`.
pub fn contains_char(v: &Vec<char>, c: char) -> (res: bool)
    ensures
        res == v@.contains(c),
{
    let mut i: usize = 0;
    while i < v.len()
        invariant
            i <= v.len(),
            forall|k: int| 0 <= k < i ==> v@[k] != c,
        decreases v.len() - i,
    {
        if v[i] == c {
            return true;
        }
        i += 1;
    }
    false
}

/// The views of a list of strings.
pub open spec fn string_views(v: Seq<String>) -> Seq<Seq<char>> {
    v.map_values(|x: String| x@)
}

/// What `{:?}` writes for a list of strings: `[` and `]` around the quoted,
/// escaped strings, separated by `, `.
pub uninterp spec fn spec_debug_strings(v: Seq<Seq<char>>) -> Seq<char>;

/// Formats a list of strings with `{:?}`. The claim: the text is a function
/// of the strings alone.
#[verifier::external_body]
pub(crate) fn debug_strings(v: &Vec<String>) -> (res: String)
    ensures
        res@ == spec_debug_strings(string_views(v@)),
{
    format!("{:?}", v)
}

/// The order of `String`: lexicographic by character (code point).
pub open spec fn str_le(a: Seq<char>, b: Seq<char>) -> bool
    decreases a.len(),
{
    if a.len() == 0 {
        true
    } else if b.len() == 0 {
        false
    } else if a[0] != b[0] {
        a[0] < b[0]
    } else {
        str_le(a.drop_first(), b.drop_first())
    }
}

pub proof fn lemma_str_le_total(a: Seq<char>, b: Seq<char>)
    ensures
        str_le(a, b) || str_le(b, a),
    decreases a.len(),
{
    if a.len() > 0 && b.len() > 0 {
        if a[0] == b[0] {
            lemma_str_le_total(a.drop_first(), b.drop_first());
        }
    }
}

pub proof fn lemma_str_le_antisymmetric(a: Seq<char>, b: Seq<char>)
    requires
        str_le(a, b),
        str_le(b, a),
    ensures
        a == b,
    decreases a.len(),
{
    if a.len() == 0 {
        assert(b.len() == 0);
        assert(a =~= b);
    } else {
        lemma_str_le_antisymmetric(a.drop_first(), b.drop_first());
        assert(a =~= seq![a[0]] + a.drop_first());
        assert(b =~= seq![b[0]] + b.drop_first());
    }
}

pub proof fn lemma_str_le_transitive(a: Seq<char>, b: Seq<char>, c: Seq<char>)
    requires
        str_le(a, b),
        str_le(b, c),
    ensures
        str_le(a, c),
    decreases a.len(),
{
    if a.len() > 0 && b.len() > 0 && c.len() > 0 && a[0] == b[0] && b[0] == c[0] {
        lemma_str_le_transitive(a.drop_first(), b.drop_first(), c.drop_first());
    }
}

/// Whether `a` comes before `b` (or equals it), comparing two characters.
pub fn str_le_vec(a: &Vec<char>, b: &Vec<char>) -> (res: bool)
    ensures
        res == str_le(a@, b@),
{
    let mut i: usize = 0;
    assert(a@.skip(0) =~= a@);
    assert(b@.skip(0) =~= b@);
    while i < a.len() && i < b.len() && a[i] == b[i]
        invariant
            i <= a.len(),
            i <= b.len(),
            str_le(a@, b@) == str_le(a@.skip(i as int), b@.skip(i as int)),
        decreases a.len() - i,
    {
        assert(a@.skip(i as int).drop_first() =~= a@.skip(i + 1));
        assert(b@.skip(i as int).drop_first() =~= b@.skip(i + 1));
        i += 1;
    }
    if i == a.len() {
        return true;
    }
    if i == b.len() {
        return false;
    }
    assert(a@.skip(i as int)[0] == a@[i as int]);
    assert(b@.skip(i as int)[0] == b@[i as int]);
    a[i] < b[i]
}

/// A copy of a list of strings.
pub fn clone_strings(v: &Vec<String>) -> (res: Vec<String>)
    ensures
        res@ == v@,
{
    let mut res: Vec<String> = Vec::new();
    let mut i: usize = 0;
    while i < v.len()
        invariant
            i <= v.len(),
            res@ == v@.take(i as int),
        decreases v.len() - i,
    {
        res.push(v[i].clone());
        assert(res@ =~= v@.take(i + 1));
        i += 1;
    }
    assert(v@.take(v.len() as int) =~= v@);
    res
}

/// A copy of a list of string pairs.
pub fn clone_string_pairs(v: &Vec<(String, String)>) -> (res: Vec<(String, String)>)
    ensures
        res@ == v@,
{
    let mut res: Vec<(String, String)> = Vec::new();
    let mut i: usize = 0;
    while i < v.len()
        invariant
            i <= v.len(),
            res@ == v@.take(i as int),
        decreases v.len() - i,
    {
        res.push((v[i].0.clone(), v[i].1.clone()));
        assert(res@ =~= v@.take(i + 1));
        i += 1;
    }
    assert(v@.take(v.len() as int) =~= v@);
    res
}

/// The number of bytes UTF-8 takes for `c`.
pub open spec fn utf8_width(c: char) -> nat {
    if (c as u32) < 0x80 {
        1
    } else if (c as u32) < 0x800 {
        2
    } else if (c as u32) < 0x10000 {
        3
    } else {
        4
    }
}

/// The number of bytes UTF-8 takes for `s`.
pub open spec fn utf8_len(s: Seq<char>) -> nat
    decreases s.len(),
{
    if s.len() == 0 {
        0
    } else {
        utf8_len(s.drop_last()) + utf8_width(s.last())
    }
}

/// Taking more characters never takes fewer bytes.
pub proof fn lemma_utf8_len_mono(s: Seq<char>, a: int, b: int)
    requires
        0 <= a <= b <= s.len(),
    ensures
        utf8_len(s.take(a)) <= utf8_len(s.take(b)),
        a < b ==> utf8_len(s.take(a)) < utf8_len(s.take(b)),
    decreases b - a,
{
    if a < b {
        assert(s.take(b).drop_last() =~= s.take(b - 1));
        lemma_utf8_len_mono(s, a, b - 1);
    }
}

/// Whether `v` takes at least `n` bytes in UTF-8.
pub fn utf8_len_at_least(v: &Vec<char>, n: usize) -> (res: bool)
    ensures
        res == (utf8_len(v@) >= n),
{
    if n == 0 {
        return true;
    }
    let mut bytes: usize = 0;
    let mut i: usize = 0;
    while i < v.len()
        invariant
            i <= v.len(),
            bytes == utf8_len(v@.take(i as int)),
            bytes < n,
        decreases v.len() - i,
    {
        let c = v[i];
        let w: usize = if (c as u32) < 0x80 {
            1
        } else if (c as u32) < 0x800 {
            2
        } else if (c as u32) < 0x10000 {
            3
        } else {
            4
        };
        assert(v@.take(i + 1).drop_last() =~= v@.take(i as int));
        if w >= n - bytes {
            proof {
                lemma_utf8_len_mono(v@, i + 1, v@.len() as int);
                assert(v@.take(v@.len() as int) =~= v@);
            }
            return true;
        }
        bytes = bytes + w;
        i += 1;
    }
    assert(v@.take(i as int) =~= v@);
    false
}

} // verus!
