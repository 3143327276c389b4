//! Character-level helpers on strings: whitespace, splitting, joining,
//! decimal numbers and prefixes.
use vstd::prelude::*;

verus! {

/// Relies on `String::push`: it appends one character to the string.
pub assume_specification[ String::push ](s: &mut String, ch: char)
    ensures
        final(s)@ == old(s)@.push(ch),
;

/// What `str::to_lowercase` gives for a text.
pub uninterp spec fn lower_of(s: Seq<char>) -> Seq<char>;

/// Relies on `str::to_lowercase`: the lowercase mapping of every character, which
/// depends on the text alone; an empty text stays empty.
#[verifier::external_body]
pub(crate) fn lowercase(s: &str) -> (r: String)
    ensures
        r@ == lower_of(s@),
        s@.len() == 0 ==> r@.len() == 0,
{
    s.to_lowercase()
}

/// Unicode `White_Space`, the set that `char::is_whitespace` tests.
pub open spec fn is_ws(c: char) -> bool {
    let u = c as u32;
    (0x09 <= u && u <= 0x0d) || u == 0x20 || u == 0x85 || u == 0xa0 || u == 0x1680 || (0x2000
        <= u && u <= 0x200a) || u == 0x2028 || u == 0x2029 || u == 0x202f || u == 0x205f || u
        == 0x3000
}

/// The separator used to cut text into pieces: a newline, or any whitespace.
pub open spec fn is_sep(c: char, newline_only: bool) -> bool {
    if newline_only {
        c == '\n'
    } else {
        is_ws(c)
    }
}

/// Scans `s` from the left: the pieces finished so far, and the piece in progress.
pub open spec fn scan(s: Seq<char>, newline_only: bool) -> (Seq<Seq<char>>, Seq<char>)
    decreases s.len(),
{
    if s.len() == 0 {
        (Seq::empty(), Seq::empty())
    } else {
        let (done, cur) = scan(s.drop_last(), newline_only);
        let c = s.last();
        if is_sep(c, newline_only) {
            if cur.len() > 0 {
                (done.push(cur), Seq::empty())
            } else {
                (done, Seq::empty())
            }
        } else {
            (done, cur.push(c))
        }
    }
}

/// The non-empty maximal runs of non-separator characters of `s`, in order.
pub open spec fn pieces(s: Seq<char>, newline_only: bool) -> Seq<Seq<char>> {
    let (done, cur) = scan(s, newline_only);
    if cur.len() > 0 {
        done.push(cur)
    } else {
        done
    }
}

/// Scanning on over characters that are no separators only lengthens the piece in
/// progress.
pub proof fn lemma_scan_run(s: Seq<char>, t: Seq<char>, newline_only: bool)
    requires
        forall|i: int| 0 <= i < t.len() ==> !is_sep(#[trigger] t[i], newline_only),
    ensures
        scan(s + t, newline_only) == (scan(s, newline_only).0, scan(s, newline_only).1 + t),
    decreases t.len(),
{
    if t.len() == 0 {
        assert(s + t =~= s);
        assert(scan(s, newline_only).1 + t =~= scan(s, newline_only).1);
    } else {
        let u = t.drop_last();
        lemma_scan_run(s, u, newline_only);
        assert((s + t).drop_last() =~= s + u);
        assert((s + t).last() == t.last());
        assert(scan(s, newline_only).1 + u.push(t.last()) =~= (scan(s, newline_only).1 + u).push(
            t.last(),
        ));
        assert(u.push(t.last()) =~= t);
    }
}

/// A line ended by a newline, after text that ends where a piece ends, adds that
/// line as one more piece.
pub proof fn lemma_scan_line(s: Seq<char>, t: Seq<char>)
    requires
        scan(s, true).1.len() == 0,
        t.len() > 0,
        forall|i: int| 0 <= i < t.len() ==> #[trigger] t[i] != '\n',
    ensures
        scan(s + t + seq!['\n'], true) == (scan(s, true).0.push(t), Seq::<char>::empty()),
{
    lemma_scan_run(s, t, true);
    assert((s + t + seq!['\n']).drop_last() =~= s + t);
    assert(scan(s, true).1 + t =~= t);
}

/// The whitespace-separated words of `s`.
pub open spec fn words(s: Seq<char>) -> Seq<Seq<char>> {
    pieces(s, false)
}

/// The non-empty lines of `s`.
pub open spec fn nonempty_lines(s: Seq<char>) -> Seq<Seq<char>> {
    pieces(s, true)
}

/// The words joined with one space between each two.
pub open spec fn join(ws: Seq<Seq<char>>) -> Seq<char>
    decreases ws.len(),
{
    if ws.len() == 0 {
        Seq::empty()
    } else if ws.len() == 1 {
        ws[0]
    } else {
        join(ws.drop_last()) + seq![' '] + ws.last()
    }
}

pub open spec fn all_ws(s: Seq<char>) -> bool {
    forall|i: int| 0 <= i < s.len() ==> is_ws(#[trigger] s[i])
}

/// Decides `is_ws`.
pub fn is_whitespace(c: char) -> (r: bool)
    ensures
        r == is_ws(c),
{
    let u = c as u32;
    (0x09 <= u && u <= 0x0d) || u == 0x20 || u == 0x85 || u == 0xa0 || u == 0x1680 || (0x2000
        <= u && u <= 0x200a) || u == 0x2028 || u == 0x2029 || u == 0x202f || u == 0x205f || u
        == 0x3000
}

/// Whether the text is empty or holds whitespace alone.
pub fn is_blank(s: &str) -> (r: bool)
    ensures
        r == all_ws(s@),
{
    let n = s.unicode_len();
    let mut i: usize = 0;
    while i < n
        invariant
            n == s@.len(),
            i <= n,
            forall|k: int| 0 <= k < i ==> is_ws(#[trigger] s@[k]),
        decreases n - i,
    {
        if !is_whitespace(s.get_char(i)) {
            return false;
        }
        i = i + 1;
    }
    true
}

/// Cuts `s` into its non-empty runs of non-separator characters.
pub fn split_pieces(s: &str, newline_only: bool) -> (r: Vec<String>)
    ensures
        r@.map_values(|p: String| p@) == pieces(s@, newline_only),
{
    let n = s.unicode_len();
    let mut done: Vec<String> = Vec::new();
    let mut cur = String::new();
    let mut i: usize = 0;
    while i < n
        invariant
            n == s@.len(),
            i <= n,
            (done@.map_values(|p: String| p@), cur@) == scan(s@.subrange(0, i as int), newline_only),
        decreases n - i,
    {
        let c = s.get_char(i);
        let sep = if newline_only {
            c == '\n'
        } else {
            is_whitespace(c)
        };
        proof {
            assert(s@.subrange(0, i + 1).drop_last() == s@.subrange(0, i as int));
        }
        if sep {
            if cur.unicode_len() > 0 {
                done.push(cur);
                cur = String::new();
            } else {
                cur = String::new();
            }
        } else {
            cur.push(c);
        }
        proof {
            assert(done@.map_values(|p: String| p@) == scan(s@.subrange(0, i + 1), newline_only).0);
        }
        i = i + 1;
    }
    proof {
        assert(s@.subrange(0, n as int) == s@);
    }
    if cur.unicode_len() > 0 {
        done.push(cur);
    }
    proof {
        assert(done@.map_values(|p: String| p@) =~= pieces(s@, newline_only));
    }
    done
}

/// Joins `ws[from..]` with single spaces.
pub fn join_from(ws: &Vec<String>, from: usize) -> (r: String)
    requires
        from <= ws@.len(),
    ensures
        r@ == join(ws@.map_values(|p: String| p@).subrange(from as int, ws@.len() as int)),
{
    let ghost vs = ws@.map_values(|p: String| p@);
    let mut r = String::new();
    let mut i: usize = from;
    while i < ws.len()
        invariant
            from <= i <= ws@.len(),
            vs == ws@.map_values(|p: String| p@),
            r@ == join(vs.subrange(from as int, i as int)),
        decreases ws@.len() - i,
    {
        proof {
            assert(vs.subrange(from as int, i + 1).drop_last() =~= vs.subrange(from as int, i as int));
        }
        if i > from {
            r.append(" ");
            proof {
                reveal_strlit(" ");
            }
        }
        r.append(ws[i].as_str());
        proof {
            if i == from {
                assert(r@ =~= vs.subrange(from as int, i + 1)[0]);
            } else {
                assert(r@ =~= join(vs.subrange(from as int, i as int)) + seq![' '] + vs[i as int]);
            }
        }
        i = i + 1;
    }
    r
}

/// Whether two texts hold the same characters.
pub fn same_text(a: &str, b: &str) -> (r: bool)
    ensures
        r == (a@ == b@),
{
    let n = a.unicode_len();
    if n != b.unicode_len() {
        return false;
    }
    let mut i: usize = 0;
    while i < n
        invariant
            n == a@.len() == b@.len(),
            i <= n,
            forall|k: int| 0 <= k < i ==> a@[k] == b@[k],
        decreases n - i,
    {
        if a.get_char(i) != b.get_char(i) {
            return false;
        }
        i = i + 1;
    }
    proof {
        assert(a@ =~= b@);
    }
    true
}

/// `p` stands in `s` at position `i`.
pub open spec fn occurs_at(s: Seq<char>, p: Seq<char>, i: int) -> bool {
    0 <= i && i + p.len() <= s.len() && s.subrange(i, i + p.len()) == p
}

pub open spec fn contains(s: Seq<char>, p: Seq<char>) -> bool {
    exists|i: int| occurs_at(s, p, i)
}

pub open spec fn has_prefix(s: Seq<char>, p: Seq<char>) -> bool {
    occurs_at(s, p, 0)
}

/// What is left of `s` once the prefix `p` is taken off, if `s` starts with it.
pub open spec fn after_prefix(s: Seq<char>, p: Seq<char>) -> Option<Seq<char>> {
    if has_prefix(s, p) {
        Some(s.subrange(p.len() as int, s.len() as int))
    } else {
        None
    }
}

fn occurs_here(s: &str, p: &str, i: usize) -> (r: bool)
    requires
        i + p@.len() <= s@.len(),
    ensures
        r == occurs_at(s@, p@, i as int),
{
    let n = s.unicode_len();
    let m = p.unicode_len();
    let mut k: usize = 0;
    while k < m
        invariant
            m == p@.len(),
            n == s@.len(),
            i + m <= n,
            k <= m,
            forall|j: int| 0 <= j < k ==> s@[i + j] == p@[j],
        decreases m - k,
    {
        if s.get_char(i + k) != p.get_char(k) {
            assert(s@.subrange(i as int, i + m)[k as int] != p@[k as int]);
            return false;
        }
        k = k + 1;
    }
    assert(s@.subrange(i as int, i + m) =~= p@);
    true
}

/// Whether `p` occurs anywhere in `s`.
pub fn contains_text(s: &str, p: &str) -> (r: bool)
    ensures
        r == contains(s@, p@),
{
    let n = s.unicode_len();
    let m = p.unicode_len();
    if m > n {
        return false;
    }
    let mut i: usize = 0;
    while i <= n - m
        invariant
            n == s@.len(),
            m == p@.len(),
            m <= n,
            i <= n - m + 1,
            forall|j: int| 0 <= j < i ==> !occurs_at(s@, p@, j),
        decreases n - m + 1 - i,
    {
        if occurs_here(s, p, i) {
            return true;
        }
        if i == n - m {
            return false;
        }
        i = i + 1;
    }
    false
}

/// `s` without the prefix `p`, if it starts with it.
pub fn strip_prefix(s: &str, p: &str) -> (r: Option<String>)
    ensures
        r matches Some(t) ==> after_prefix(s@, p@) == Some(t@),
        r is None ==> after_prefix(s@, p@) is None,
{
    let n = s.unicode_len();
    let m = p.unicode_len();
    if m <= n && occurs_here(s, p, 0) {
        Some(String::from_str(s.substring_char(m, n)))
    } else {
        None
    }
}

/// The character of the decimal digit `d`.
pub open spec fn digit(d: nat) -> char {
    if d == 0 {
        '0'
    } else if d == 1 {
        '1'
    } else if d == 2 {
        '2'
    } else if d == 3 {
        '3'
    } else if d == 4 {
        '4'
    } else if d == 5 {
        '5'
    } else if d == 6 {
        '6'
    } else if d == 7 {
        '7'
    } else if d == 8 {
        '8'
    } else {
        '9'
    }
}

/// The decimal notation of `n`, without leading zeros.
pub open spec fn dec(n: nat) -> Seq<char>
    decreases n,
{
    if n < 10 {
        seq![digit(n)]
    } else {
        dec(n / 10).push(digit(n % 10))
    }
}

fn digit_char(d: usize) -> (c: char)
    requires
        d < 10,
    ensures
        c == digit(d as nat),
{
    if d == 0 {
        '0'
    } else if d == 1 {
        '1'
    } else if d == 2 {
        '2'
    } else if d == 3 {
        '3'
    } else if d == 4 {
        '4'
    } else if d == 5 {
        '5'
    } else if d == 6 {
        '6'
    } else if d == 7 {
        '7'
    } else if d == 8 {
        '8'
    } else {
        '9'
    }
}

/// Writes `n` in decimal.
pub fn decimal(n: usize) -> (r: String)
    ensures
        r@ == dec(n as nat),
    decreases n,
{
    if n < 10 {
        let mut r = String::new();
        r.push(digit_char(n));
        assert(r@ =~= dec(n as nat));
        r
    } else {
        let mut r = decimal(n / 10);
        r.push(digit_char(n % 10));
        r
    }
}

pub open spec fn is_digit(c: char) -> bool {
    48 <= c as u32 <= 57
}

/// The value of a run of decimal digits.
pub open spec fn digits_value(s: Seq<char>) -> int
    decreases s.len(),
{
    if s.len() == 0 {
        0
    } else {
        digits_value(s.drop_last()) * 10 + (s.last() as u32 - 48)
    }
}

/// `s` without one leading `+`, if it has one.
pub open spec fn unsigned_digits(s: Seq<char>) -> Seq<char> {
    if s.len() > 0 && s[0] == '+' {
        s.drop_first()
    } else {
        s
    }
}

/// What reading `s` as an unsigned machine integer gives: an optional `+`, then one
/// or more decimal digits, whose value fits in `usize`.
pub open spec fn parse_index(s: Seq<char>) -> Option<nat> {
    let d = unsigned_digits(s);
    if d.len() > 0 && (forall|i: int| 0 <= i < d.len() ==> is_digit(#[trigger] d[i]))
        && digits_value(d) <= usize::MAX {
        Some(digits_value(d) as nat)
    } else {
        None
    }
}

/// Reads `s` as an unsigned machine integer.
pub fn read_index(s: &str) -> (r: Option<usize>)
    ensures
        r matches Some(v) ==> parse_index(s@) == Some(v as nat),
        r is None ==> parse_index(s@) is None,
{
    let n = s.unicode_len();
    let mut i: usize = 0;
    if n > 0 && s.get_char(0) == '+' {
        i = 1;
    }
    let start = i;
    let ghost d = unsigned_digits(s@);
    assert(d =~= s@.subrange(start as int, n as int));
    if start == n {
        assert(d.len() == 0);
        return None;
    }
    let mut v: usize = 0;
    let mut fits = true;
    while i < n
        invariant
            n == s@.len(),
            start <= i <= n,
            d == s@.subrange(start as int, n as int),
            d == unsigned_digits(s@),
            forall|k: int| 0 <= k < i - start ==> is_digit(#[trigger] d[k]),
            fits ==> v == digits_value(d.subrange(0, i - start)),
            !fits ==> digits_value(d.subrange(0, i - start)) > usize::MAX,
        decreases n - i,
    {
        let c = s.get_char(i);
        let u = c as u32;
        if u < 48 || u > 57 {
            assert(d[i - start] == c);
            assert(!is_digit(d[i - start]));
            return None;
        }
        let ghost prev = digits_value(d.subrange(0, i - start));
        proof {
            assert(d.subrange(0, i + 1 - start).drop_last() =~= d.subrange(0, i - start));
            assert(digits_value(d.subrange(0, i + 1 - start)) == prev * 10 + (u - 48));
        }
        if fits {
            match v.checked_mul(10) {
                Some(t) => match t.checked_add((u - 48) as usize) {
                    Some(w) => {
                        v = w;
                    },
                    None => {
                        fits = false;
                    },
                },
                None => {
                    fits = false;
                },
            }
        }
        i = i + 1;
    }
    assert(d.subrange(0, n - start) =~= d);
    if fits {
        Some(v)
    } else {
        None
    }
}

} // verus!
