use vstd::prelude::*;

verus! {

broadcast use vstd::string::group_string_axioms;

/// The characters of `s`, in order.
pub fn chars_of(s: &str) -> (r: Vec<char>)
    ensures
        r@ == s@,
{
    let mut out: Vec<char> = Vec::new();
    for c in it: s.chars()
        invariant
            it.seq() == s@,
            out@ == it.seq().take(it.index()),
    {
        assert(it.seq().take(it.index() + 1) =~= out@.push(c));
        out.push(c);
    }
    assert(out@ =~= s@);
    out
}

} // verus!

verus! {

/// A copy of an optional string.
pub fn dup_opt(o: &Option<String>) -> (r: Option<String>)
    ensures
        r == *o,
{
    match o {
        Some(s) => Some(s.clone()),
        None => None,
    }
}

/// The text an optional string holds.
pub open spec fn opt_view(o: Option<String>) -> Option<Seq<char>> {
    match o {
        Some(s) => Some(s@),
        None => None,
    }
}

} // verus!

verus! {

/// The character as SQL's `LIKE` compares it: ASCII letters fold to lower case.
pub open spec fn fold_case(c: char) -> u32 {
    let v = c as u32;
    if 65 <= v <= 90 {
        (v + 32) as u32
    } else {
        v
    }
}

/// SQL `LIKE`: `%` stands for any run of characters, `_` for any one character,
/// and every other character for itself, ASCII letters in either case.
pub open spec fn like_match(p: Seq<char>, t: Seq<char>) -> bool
    decreases p.len(), t.len(),
{
    if p.len() == 0 {
        t.len() == 0
    } else if p[0] == '%' {
        like_match(p.drop_first(), t) || (t.len() > 0 && like_match(p, t.drop_first()))
    } else if t.len() == 0 {
        false
    } else if p[0] == '_' {
        like_match(p.drop_first(), t.drop_first())
    } else {
        fold_case(p[0]) == fold_case(t[0]) && like_match(p.drop_first(), t.drop_first())
    }
}

/// The pattern `%s%`: matches every text that holds `s`.
pub open spec fn containing(s: Seq<char>) -> Seq<char> {
    seq!['%'] + s + seq!['%']
}

/// Does a possibly missing text match the pattern? (A missing text matches nothing.)
pub open spec fn opt_like(o: Option<String>, p: Seq<char>) -> bool {
    match o {
        Some(s) => like_match(p, s@),
        None => false,
    }
}

fn fold_char(c: char) -> (r: u32)
    ensures
        r == fold_case(c),
{
    let v = c as u32;
    if 65 <= v && v <= 90 {
        v + 32
    } else {
        v
    }
}

proof fn lemma_like_unfold(p: Seq<char>, t: Seq<char>, i: int, j: int)
    requires
        0 <= i < p.len(),
        0 <= j <= t.len(),
    ensures
        p.skip(i).drop_first() == p.skip(i + 1),
        p.skip(i)[0] == p[i],
        p.skip(i).len() > 0,
        j < t.len() ==> t.skip(j).drop_first() == t.skip(j + 1) && t.skip(j)[0] == t[j],
        t.skip(j).len() == t.len() - j,
{
    assert(p.skip(i).drop_first() =~= p.skip(i + 1));
    if j < t.len() {
        assert(t.skip(j).drop_first() =~= t.skip(j + 1));
    }
}

/// Decides `like_match(p, t)` by filling a table of the answers for the suffixes of
/// the pattern and the text, one row per pattern position.
pub fn like(p: &Vec<char>, t: &Vec<char>) -> (r: bool)
    ensures
        r == like_match(p@, t@),
{
    let np = p.len();
    let nt = t.len();
    // next[m] == like_match(p.skip(i), t.skip(m)) for m < nt; next_end for m == nt
    let mut next: Vec<bool> = Vec::new();
    let mut k: usize = 0;
    while k < nt
        invariant
            k <= nt,
            nt == t@.len(),
            np == p@.len(),
            next@.len() == k,
            forall|m: int| 0 <= m < k ==> #[trigger] next@[m] == like_match(p@.skip(np as int), t@.skip(m)),
        decreases nt - k,
    {
        assert(p@.skip(np as int).len() == 0);
        next.push(false);
        k = k + 1;
    }
    assert(p@.skip(np as int).len() == 0);
    assert(t@.skip(nt as int).len() == 0);
    let mut next_end = true;
    let mut i = np;
    while i > 0
        invariant
            i <= np,
            np == p@.len(),
            nt == t@.len(),
            next@.len() == nt,
            forall|m: int| 0 <= m < nt ==> #[trigger] next@[m] == like_match(p@.skip(i as int), t@.skip(m)),
            next_end == like_match(p@.skip(i as int), t@.skip(nt as int)),
        decreases i,
    {
        let pi = i - 1;
        let pc = p[pi];
        proof {
            lemma_like_unfold(p@, t@, pi as int, nt as int);
        }
        let cur_end = if pc == '%' { next_end } else { false };
        let mut cur: Vec<bool> = Vec::new();
        let mut m: usize = 0;
        while m < nt
            invariant
                m <= nt,
                cur@.len() == m,
                nt == t@.len(),
            decreases nt - m,
        {
            cur.push(false);
            m = m + 1;
        }
        let mut j = nt;
        while j > 0
            invariant
                j <= nt,
                cur@.len() == nt,
                next@.len() == nt,
                np == p@.len(),
                nt == t@.len(),
                pi < np,
                pi + 1 == i,
                pc == p@[pi as int],
                forall|x: int| 0 <= x < nt ==> #[trigger] next@[x] == like_match(p@.skip(i as int), t@.skip(x)),
                next_end == like_match(p@.skip(i as int), t@.skip(nt as int)),
                cur_end == like_match(p@.skip(pi as int), t@.skip(nt as int)),
                forall|x: int| j <= x < nt ==> #[trigger] cur@[x] == like_match(p@.skip(pi as int), t@.skip(x)),
            decreases j,
        {
            let tj = j - 1;
            proof {
                lemma_like_unfold(p@, t@, pi as int, tj as int);
            }
            let after_next = if tj + 1 < nt { next[tj + 1] } else { next_end };
            let after_cur = if tj + 1 < nt { cur[tj + 1] } else { cur_end };
            let v = if pc == '%' {
                next[tj] || after_cur
            } else if pc == '_' {
                after_next
            } else {
                fold_char(pc) == fold_char(t[tj]) && after_next
            };
            cur.set(tj, v);
            j = j - 1;
        }
        next = cur;
        next_end = cur_end;
        i = i - 1;
    }
    assert(p@.skip(0) =~= p@);
    assert(t@.skip(0) =~= t@);
    if nt == 0 {
        next_end
    } else {
        next[0]
    }
}

/// The pattern `%s%` for the text `s`.
pub fn containing_pattern(s: &str) -> (r: Vec<char>)
    ensures
        r@ == containing(s@),
{
    let cs = chars_of(s);
    let mut out: Vec<char> = Vec::new();
    out.push('%');
    let mut i: usize = 0;
    while i < cs.len()
        invariant
            i <= cs@.len(),
            out@ == seq!['%'] + cs@.take(i as int),
        decreases cs@.len() - i,
    {
        assert(cs@.take(i + 1) =~= cs@.take(i as int).push(cs@[i as int]));
        out.push(cs[i]);
        i = i + 1;
    }
    out.push('%');
    assert(cs@.take(cs@.len() as int) =~= cs@);
    assert(out@ =~= containing(s@));
    out
}

/// Does the text match the pattern?
pub fn str_like(s: &str, p: &Vec<char>) -> (r: bool)
    ensures
        r == like_match(p@, s@),
{
    let cs = chars_of(s);
    like(p, &cs)
}

/// Does the possibly missing text match the pattern?
pub fn opt_str_like(o: &Option<String>, p: &Vec<char>) -> (r: bool)
    ensures
        r == opt_like(*o, p@),
{
    match o {
        Some(s) => str_like(s.as_str(), p),
        None => false,
    }
}

/// Two texts are equal.
pub fn str_eq(a: &str, b: &str) -> (r: bool)
    ensures
        r == (a@ == b@),
{
    let x = a.to_owned();
    let y = b.to_owned();
    x.eq(&y)
}

} // verus!

verus! {

/// Texts in the order SQL sorts them by default: by character code, a prefix first.
pub open spec fn str_le(a: Seq<char>, b: Seq<char>) -> bool
    decreases a.len(),
{
    if a.len() == 0 {
        true
    } else if b.len() == 0 {
        false
    } else if a[0] < b[0] {
        true
    } else if a[0] == b[0] {
        str_le(a.drop_first(), b.drop_first())
    } else {
        false
    }
}

pub proof fn lemma_str_le_refl(a: Seq<char>)
    ensures
        str_le(a, a),
    decreases a.len(),
{
    if a.len() > 0 {
        lemma_str_le_refl(a.drop_first());
    }
}

pub proof fn lemma_str_le_total(a: Seq<char>, b: Seq<char>)
    ensures
        str_le(a, b) || str_le(b, a),
    decreases a.len(),
{
    if a.len() > 0 && b.len() > 0 && a[0] == b[0] {
        lemma_str_le_total(a.drop_first(), b.drop_first());
    }
}

pub proof fn lemma_str_le_antisym(a: Seq<char>, b: Seq<char>)
    requires
        str_le(a, b),
        str_le(b, a),
    ensures
        a == b,
    decreases a.len(),
{
    if a.len() > 0 && b.len() > 0 {
        lemma_str_le_antisym(a.drop_first(), b.drop_first());
        assert(a =~= seq![a[0]] + a.drop_first());
        assert(b =~= seq![b[0]] + b.drop_first());
    } else {
        assert(a.len() == 0 && b.len() == 0);
        assert(a =~= b);
    }
}

pub proof fn lemma_str_le_trans(a: Seq<char>, b: Seq<char>, c: Seq<char>)
    requires
        str_le(a, b),
        str_le(b, c),
    ensures
        str_le(a, c),
    decreases a.len(),
{
    if a.len() > 0 && b.len() > 0 && c.len() > 0 {
        if a[0] == b[0] && b[0] == c[0] {
            lemma_str_le_trans(a.drop_first(), b.drop_first(), c.drop_first());
        }
    }
}

/// Compares two texts in the order SQL sorts them.
pub fn str_le_exec(a: &str, b: &str) -> (r: bool)
    ensures
        r == str_le(a@, b@),
{
    let x = chars_of(a);
    let y = chars_of(b);
    let mut i: usize = 0;
    assert(x@.skip(0) =~= x@);
    assert(y@.skip(0) =~= y@);
    while i < x.len() && i < y.len()
        invariant
            i <= x@.len(),
            i <= y@.len(),
            x@ == a@,
            y@ == b@,
            str_le(x@, y@) == str_le(x@.skip(i as int), y@.skip(i as int)),
        decreases x@.len() - i,
    {
        assert(x@.skip(i as int).drop_first() =~= x@.skip(i + 1));
        assert(y@.skip(i as int).drop_first() =~= y@.skip(i + 1));
        let cx = x[i];
        let cy = y[i];
        if cx < cy {
            return true;
        }
        if cx != cy {
            return false;
        }
        i = i + 1;
    }
    i == x.len()
}

} // verus!

verus! {

/// A string holding these characters.
pub fn string_of(v: &Vec<char>) -> (r: String)
    ensures
        r@ == v@,
{
    let mut s = String::new();
    let mut i: usize = 0;
    while i < v.len()
        invariant
            i <= v@.len(),
            s@ == v@.take(i as int),
        decreases v@.len() - i,
    {
        crate::external::push_char(&mut s, v[i]);
        assert(v@.take(i + 1) =~= v@.take(i as int).push(v@[i as int]));
        i = i + 1;
    }
    assert(v@.take(v@.len() as int) =~= v@);
    s
}

/// White space as Rust's `char::is_whitespace` knows it: the characters with the
/// Unicode property White_Space.
pub open spec fn is_ws(c: char) -> bool {
    let v = c as u32;
    (9 <= v <= 13) || v == 32 || v == 0x85 || v == 0xA0 || v == 0x1680 || (0x2000 <= v <= 0x200A)
        || v == 0x2028 || v == 0x2029 || v == 0x202F || v == 0x205F || v == 0x3000
}

fn is_ws_exec(c: char) -> (r: bool)
    ensures
        r == is_ws(c),
{
    let v = c as u32;
    (9 <= v && v <= 13) || v == 32 || v == 0x85 || v == 0xA0 || v == 0x1680 || (0x2000 <= v && v
        <= 0x200A) || v == 0x2028 || v == 0x2029 || v == 0x202F || v == 0x205F || v == 0x3000
}

/// The text without white space at its start.
pub open spec fn trim_start(s: Seq<char>) -> Seq<char>
    decreases s.len(),
{
    if s.len() > 0 && is_ws(s[0]) {
        trim_start(s.drop_first())
    } else {
        s
    }
}

/// The text without white space at its end.
pub open spec fn trim_end(s: Seq<char>) -> Seq<char>
    decreases s.len(),
{
    if s.len() > 0 && is_ws(s.last()) {
        trim_end(s.drop_last())
    } else {
        s
    }
}

/// The text without white space at either end, as `str::trim` gives it.
pub open spec fn trim(s: Seq<char>) -> Seq<char> {
    trim_end(trim_start(s))
}

/// The text with the white space at both ends taken off.
pub fn trim_chars(v: &Vec<char>) -> (r: Vec<char>)
    ensures
        r@ == trim(v@),
{
    let n = v.len();
    let mut a: usize = 0;
    assert(v@.skip(0) =~= v@);
    while a < n && is_ws_exec(v[a])
        invariant
            a <= n,
            n == v@.len(),
            trim_start(v@) == trim_start(v@.skip(a as int)),
        decreases n - a,
    {
        assert(v@.skip(a as int).drop_first() =~= v@.skip(a + 1));
        a = a + 1;
    }
    let ghost t = v@.skip(a as int);
    assert(trim_start(v@) == t);
    let mut b: usize = n;
    assert(t.take((b - a) as int) =~= t);
    while b > a && is_ws_exec(v[b - 1])
        invariant
            a <= b <= n,
            n == v@.len(),
            t == v@.skip(a as int),
            trim_end(t) == trim_end(v@.subrange(a as int, b as int)),
        decreases b,
    {
        assert(v@.subrange(a as int, b as int).drop_last() =~= v@.subrange(a as int, b - 1));
        b = b - 1;
    }
    assert(t =~= v@.subrange(a as int, n as int));
    let mut out: Vec<char> = Vec::new();
    let mut i = a;
    while i < b
        invariant
            a <= i <= b <= n,
            n == v@.len(),
            out@ == v@.subrange(a as int, i as int),
        decreases b - i,
    {
        out.push(v[i]);
        assert(v@.subrange(a as int, i + 1) =~= v@.subrange(a as int, i as int).push(v@[i as int]));
        i = i + 1;
    }
    out
}

/// The pieces of the text between the separators, as `str::split` gives them.
pub open spec fn split_pieces(s: Seq<char>, sep: char) -> Seq<Seq<char>>
    decreases s.len(),
{
    if s.len() == 0 {
        seq![Seq::empty()]
    } else {
        let rest = split_pieces(s.drop_last(), sep);
        if s.last() == sep {
            rest.push(Seq::empty())
        } else {
            rest.update(rest.len() - 1, rest.last().push(s.last()))
        }
    }
}

pub proof fn lemma_split_nonempty(s: Seq<char>, sep: char)
    ensures
        split_pieces(s, sep).len() >= 1,
    decreases s.len(),
{
    if s.len() > 0 {
        lemma_split_nonempty(s.drop_last(), sep);
    }
}

/// The pieces of the text between the separators.
pub fn split_chars(v: &Vec<char>, sep: char) -> (r: Vec<Vec<char>>)
    ensures
        r@.len() == split_pieces(v@, sep).len(),
        forall|k: int| 0 <= k < r@.len() ==> #[trigger] r@[k]@ == split_pieces(v@, sep)[k],
{
    let mut done: Vec<Vec<char>> = Vec::new();
    let mut cur: Vec<char> = Vec::new();
    let mut i: usize = 0;
    assert(v@.take(0) =~= Seq::<char>::empty());
    while i < v.len()
        invariant
            i <= v@.len(),
            split_pieces(v@.take(i as int), sep).len() == done@.len() + 1,
            forall|k: int| 0 <= k < done@.len() ==> #[trigger] done@[k]@ == split_pieces(v@.take(i as int), sep)[k],
            cur@ == split_pieces(v@.take(i as int), sep).last(),
        decreases v@.len() - i,
    {
        assert(v@.take(i + 1).drop_last() =~= v@.take(i as int));
        let c = v[i];
        if c == sep {
            let finished = cur;
            done.push(finished);
            cur = Vec::new();
            assert(cur@ =~= Seq::<char>::empty());
        } else {
            cur.push(c);
        }
        i = i + 1;
    }
    assert(v@.take(v@.len() as int) =~= v@);
    let ghost before = done@;
    done.push(cur);
    assert forall|k: int| 0 <= k < done@.len() implies #[trigger] done@[k]@ == split_pieces(v@, sep)[k] by {
        if k < before.len() {
            assert(done@[k] == before[k]);
        }
    }
    done
}

} // verus!

verus! {

/// An ASCII digit.
pub open spec fn is_digit(c: char) -> bool {
    '0' <= c && c <= '9'
}

/// The number the digits spell, in base ten.
pub open spec fn digits_value(d: Seq<char>) -> int
    decreases d.len(),
{
    if d.len() == 0 {
        0
    } else {
        digits_value(d.drop_last()) * 10 + (d.last() as int - '0' as int)
    }
}

/// Every character is an ASCII digit.
pub open spec fn all_digits(d: Seq<char>) -> bool {
    forall|i: int| 0 <= i < d.len() ==> is_digit(#[trigger] d[i])
}

/// What `str::parse::<i64>` gives: an optional `+` or `-`, then at least one
/// digit and nothing else, for a value within the range of `i64`.
pub open spec fn parse_i64(s: Seq<char>) -> Option<i64> {
    let neg = s.len() > 0 && s[0] == '-';
    let d = if s.len() > 0 && (s[0] == '-' || s[0] == '+') {
        s.drop_first()
    } else {
        s
    };
    if d.len() == 0 || !all_digits(d) {
        None
    } else {
        let v = if neg {
            -digits_value(d)
        } else {
            digits_value(d)
        };
        if i64::MIN <= v <= i64::MAX {
            Some(v as i64)
        } else {
            None
        }
    }
}

proof fn lemma_digits_grow(d: Seq<char>, k: int)
    requires
        0 <= k <= d.len(),
        all_digits(d),
    ensures
        digits_value(d.take(k)) <= digits_value(d),
        digits_value(d.take(k)) >= 0,
    decreases d.len() - k,
{
    if k < d.len() {
        lemma_digits_grow(d, k + 1);
        assert(d.take(k + 1).drop_last() =~= d.take(k));
        assert(is_digit(d[k]));
    } else {
        assert(d.take(k) =~= d);
    }
    lemma_digits_nonneg(d.take(k));
}

pub proof fn lemma_digits_nonneg(d: Seq<char>)
    requires
        all_digits(d),
    ensures
        digits_value(d) >= 0,
    decreases d.len(),
{
    if d.len() > 0 {
        assert(is_digit(d.last()));
        lemma_digits_nonneg(d.drop_last());
    }
}

/// Parses the text as `str::parse::<i64>` does.
pub fn parse_i64_chars(s: &Vec<char>) -> (r: Option<i64>)
    ensures
        r == parse_i64(s@),
{
    let n = s.len();
    let neg = n > 0 && s[0] == '-';
    let start: usize = if n > 0 && (s[0] == '-' || s[0] == '+') { 1 } else { 0 };
    let ghost d = if s@.len() > 0 && (s@[0] == '-' || s@[0] == '+') {
        s@.drop_first()
    } else {
        s@
    };
    assert(d =~= s@.skip(start as int));
    if start == n {
        return None;
    }
    // magnitude so far; the bound is 2^63 for a negative number, 2^63 - 1 otherwise
    let bound: u64 = if neg { 9223372036854775808 } else { 9223372036854775807 };
    let mut acc: u64 = 0;
    let mut i = start;
    assert(d.take(0) =~= Seq::<char>::empty());
    while i < n
        invariant
            start <= i <= n,
            n == s@.len(),
            d == s@.skip(start as int),
            d == (if s@.len() > 0 && (s@[0] == '-' || s@[0] == '+') { s@.drop_first() } else { s@ }),
            neg == (s@.len() > 0 && s@[0] == '-'),
            bound == (if neg { 9223372036854775808u64 } else { 9223372036854775807u64 }),
            acc as int == digits_value(d.take(i - start)),
            acc <= bound,
            all_digits(d.take(i - start)),
        decreases n - i,
    {
        let c = s[i];
        assert(d.take(i - start + 1).drop_last() =~= d.take(i - start));
        if !('0' <= c && c <= '9') {
            assert(d[i - start] == c);
            assert(!is_digit(d[i - start]));
            return None;
        }
        let digit = (c as u32 - '0' as u32) as u64;
        assert(digit <= 9);
        assert(digit as int == c as int - '0' as int);
        if acc > (bound - digit) / 10 {
            proof {
                assert(all_digits(d.take(i - start + 1)));
                assert(digits_value(d.take(i - start + 1)) > bound) by (nonlinear_arith)
                    requires
                        digits_value(d.take(i - start + 1)) == acc * 10 + digit,
                        acc > (bound - digit) / 10,
                        digit <= 9,
                        bound >= 9,
                ;
                if all_digits(d) {
                    lemma_digits_grow(d, i - start + 1);
                }
            }
            return None;
        }
        acc = acc * 10 + digit;
        assert(all_digits(d.take(i - start + 1)));
        i = i + 1;
    }
    assert(d.take(n - start) =~= d);
    if neg {
        if acc == 9223372036854775808 {
            Some(i64::MIN)
        } else {
            Some(-(acc as i64))
        }
    } else {
        Some(acc as i64)
    }
}

} // verus!

verus! {

/// No piece that `split` gives holds the separator.
pub proof fn lemma_split_pieces_lack_sep(s: Seq<char>, sep: char)
    ensures
        forall|k: int, i: int|
            0 <= k < split_pieces(s, sep).len() && 0 <= i < split_pieces(s, sep)[k].len()
                ==> #[trigger] split_pieces(s, sep)[k][i] != sep,
    decreases s.len(),
{
    if s.len() > 0 {
        lemma_split_pieces_lack_sep(s.drop_last(), sep);
        lemma_split_nonempty(s.drop_last(), sep);
        let rest = split_pieces(s.drop_last(), sep);
        if s.last() != sep {
            let last = rest.last().push(s.last());
            assert forall|k: int, i: int|
                0 <= k < split_pieces(s, sep).len() && 0 <= i < split_pieces(s, sep)[k].len()
                    implies #[trigger] split_pieces(s, sep)[k][i] != sep by {
                if k == rest.len() - 1 {
                    if i < rest.last().len() {
                        assert(last[i] == rest[k][i]);
                    }
                }
            }
        } else {
            assert forall|k: int, i: int|
                0 <= k < split_pieces(s, sep).len() && 0 <= i < split_pieces(s, sep)[k].len()
                    implies #[trigger] split_pieces(s, sep)[k][i] != sep by {
                if k < rest.len() {
                    assert(split_pieces(s, sep)[k] == rest[k]);
                }
            }
        }
    }
}

/// A text without a minus sign parses, if at all, to a number of zero or more.
pub proof fn lemma_parse_without_minus(d: Seq<char>)
    requires
        forall|i: int| 0 <= i < d.len() ==> d[i] != '-',
    ensures
        parse_i64(d) matches Some(v) ==> v >= 0,
{
    if d.len() > 0 && d[0] == '+' {
        if all_digits(d.drop_first()) {
            lemma_digits_nonneg(d.drop_first());
        }
    } else if all_digits(d) {
        lemma_digits_nonneg(d);
    }
}

/// The characters SQLite skips before a number: space, and tab through carriage
/// return.
pub open spec fn is_sql_space(c: char) -> bool {
    c == ' ' || ('\t' <= c && c <= '\r')
}

/// An SQLite space.
pub open spec fn sql_space() -> spec_fn(char) -> bool {
    |c: char| is_sql_space(c)
}

/// An ASCII digit.
pub open spec fn digit_char() -> spec_fn(char) -> bool {
    |c: char| is_digit(c)
}

/// Length of the longest prefix whose characters all satisfy `p`.
pub open spec fn run_len(s: Seq<char>, p: spec_fn(char) -> bool) -> nat
    decreases s.len(),
{
    if s.len() > 0 && p(s[0]) {
        1 + run_len(s.drop_first(), p)
    } else {
        0
    }
}

/// A prefix of `i` characters satisfying `p`, followed by the end or by a character
/// that does not, is the longest such prefix.
pub proof fn lemma_run_len(s: Seq<char>, p: spec_fn(char) -> bool, i: int)
    requires
        0 <= i <= s.len(),
        forall|k: int| 0 <= k < i ==> #[trigger] p(s[k]),
        i == s.len() || !p(s[i]),
    ensures
        run_len(s, p) == i,
    decreases i,
{
    if i > 0 {
        let t = s.drop_first();
        assert forall|k: int| 0 <= k < i - 1 implies #[trigger] p(t[k]) by {
            assert(t[k] == s[k + 1]);
            assert(p(s[k + 1]));
        }
        if i < s.len() {
            assert(t[i - 1] == s[i]);
        }
        assert(p(s[0]));
        lemma_run_len(t, p, i - 1);
    }
}

/// What SQLite's `CAST(t AS INTEGER)` gives for a text whose digits fit in an
/// `i64`: leading spaces are skipped, a sign may follow, then the longest run of
/// digits is read; a text without such digits reads as 0.
pub open spec fn sql_cast_int(t: Seq<char>) -> int {
    let u = t.skip(run_len(t, sql_space()) as int);
    let d = if u.len() > 0 && (u[0] == '-' || u[0] == '+') {
        u.drop_first()
    } else {
        u
    };
    let v = digits_value(d.take(run_len(d, digit_char()) as int));
    if u.len() > 0 && u[0] == '-' {
        -v
    } else {
        v
    }
}

/// Ten to the power `n`, for the lengths of the texts read here.
pub open spec fn small_pow10(n: int) -> int {
    if n <= 0 {
        1
    } else if n == 1 {
        10
    } else if n == 2 {
        100
    } else if n == 3 {
        1000
    } else {
        10000
    }
}

/// `CAST(t AS INTEGER)` of a text of at most four characters.
pub fn sql_cast_int_chars(t: &Vec<char>) -> (r: i64)
    requires
        t@.len() <= 4,
    ensures
        r == sql_cast_int(t@),
{
    let n = t.len();
    let mut a: usize = 0;
    while a < n && (t[a] == ' ' || ('\t' <= t[a] && t[a] <= '\r'))
        invariant
            a <= n,
            n == t@.len(),
            forall|k: int| 0 <= k < a ==> #[trigger] sql_space()(t@[k]),
        decreases n - a,
    {
        assert(sql_space()(t@[a as int]));
        a = a + 1;
    }
    proof {
        if a < n {
            assert(!sql_space()(t@[a as int]));
        }
        lemma_run_len(t@, sql_space(), a as int);
    }
    let ghost u = t@.skip(a as int);
    let neg = a < n && t[a] == '-';
    let b: usize = if a < n && (t[a] == '-' || t[a] == '+') { a + 1 } else { a };
    let ghost d = if u.len() > 0 && (u[0] == '-' || u[0] == '+') {
        u.drop_first()
    } else {
        u
    };
    assert(d =~= t@.skip(b as int));
    let mut j: usize = b;
    let mut acc: i64 = 0;
    assert(d.take(0) =~= Seq::<char>::empty());
    while j < n && '0' <= t[j] && t[j] <= '9'
        invariant
            b <= j <= n,
            n == t@.len(),
            n <= 4,
            d == t@.skip(b as int),
            forall|k: int| 0 <= k < j - b ==> #[trigger] digit_char()(d[k]),
            acc == digits_value(d.take(j - b)),
            0 <= acc < small_pow10(j - b),
        decreases n - j,
    {
        assert(d[j - b] == t@[j as int]);
        assert(d.take(j - b + 1).drop_last() =~= d.take(j - b));
        let digit = (t[j] as u32 - '0' as u32) as i64;
        acc = acc * 10 + digit;
        j = j + 1;
    }
    proof {
        if j < n {
            assert(d[j - b] == t@[j as int]);
        }
        lemma_run_len(d, digit_char(), j - b);
    }
    if neg {
        -acc
    } else {
        acc
    }
}

} // verus!
