use vstd::prelude::*;

verus! {

// ---------------------------------------------------------------------------
// Character classes
// ---------------------------------------------------------------------------

/// Unicode `White_Space`, the class that `str::trim` removes.
pub open spec fn is_white_space(c: char) -> bool {
    let u = c as u32;
    ||| 0x09 <= u <= 0x0d
    ||| u == 0x20
    ||| u == 0x85
    ||| u == 0xa0
    ||| u == 0x1680
    ||| 0x2000 <= u <= 0x200a
    ||| u == 0x2028
    ||| u == 0x2029
    ||| u == 0x202f
    ||| u == 0x205f
    ||| u == 0x3000
}

/// A character that a trim removes: white space when `ws`, else exactly `c`.
pub open spec fn trims(x: char, ws: bool, c: char) -> bool {
    if ws {
        is_white_space(x)
    } else {
        x == c
    }
}

pub fn white_space(c: char) -> (r: bool)
    ensures
        r == is_white_space(c),
{
    let u = c as u32;
    (0x09 <= u && u <= 0x0d) || u == 0x20 || u == 0x85 || u == 0xa0 || u == 0x1680 || (0x2000
        <= u && u <= 0x200a) || u == 0x2028 || u == 0x2029 || u == 0x202f || u == 0x205f || u
        == 0x3000
}

fn trims_exec(x: char, ws: bool, c: char) -> (r: bool)
    ensures
        r == trims(x, ws, c),
{
    if ws {
        white_space(x)
    } else {
        x == c
    }
}

// ---------------------------------------------------------------------------
// Trimming
// ---------------------------------------------------------------------------

pub open spec fn trim_start_by(s: Seq<char>, ws: bool, c: char) -> Seq<char>
    decreases s.len(),
{
    if s.len() > 0 && trims(s[0], ws, c) {
        trim_start_by(s.drop_first(), ws, c)
    } else {
        s
    }
}

pub open spec fn trim_end_by(s: Seq<char>, ws: bool, c: char) -> Seq<char>
    decreases s.len(),
{
    if s.len() > 0 && trims(s.last(), ws, c) {
        trim_end_by(s.drop_last(), ws, c)
    } else {
        s
    }
}

/// `str::trim`: white space removed from both ends.
pub open spec fn trim(s: Seq<char>) -> Seq<char> {
    trim_end_by(trim_start_by(s, true, ' '), true, ' ')
}

/// `str::trim_matches(c)`: every `c` removed from both ends.
pub open spec fn trim_char(s: Seq<char>, c: char) -> Seq<char> {
    trim_end_by(trim_start_by(s, false, c), false, c)
}

pub proof fn lemma_trim_start_at(s: Seq<char>, a: int, ws: bool, c: char)
    requires
        0 <= a <= s.len(),
        forall|i: int| 0 <= i < a ==> trims(#[trigger] s[i], ws, c),
        a == s.len() || !trims(s[a], ws, c),
    ensures
        trim_start_by(s, ws, c) == s.subrange(a, s.len() as int),
    decreases a,
{
    if a > 0 {
        let t = s.drop_first();
        assert forall|i: int| 0 <= i < a - 1 implies trims(#[trigger] t[i], ws, c) by {
            assert(t[i] == s[i + 1]);
        }
        lemma_trim_start_at(t, a - 1, ws, c);
        assert(t.subrange(a - 1, t.len() as int) =~= s.subrange(a, s.len() as int));
    } else {
        assert(s.subrange(0, s.len() as int) =~= s);
    }
}

pub proof fn lemma_trim_end_at(s: Seq<char>, b: int, ws: bool, c: char)
    requires
        0 <= b <= s.len(),
        forall|i: int| b <= i < s.len() ==> trims(#[trigger] s[i], ws, c),
        b == 0 || !trims(s[b - 1], ws, c),
    ensures
        trim_end_by(s, ws, c) == s.subrange(0, b),
    decreases s.len() - b,
{
    if b < s.len() {
        let t = s.drop_last();
        assert forall|i: int| b <= i < t.len() implies trims(#[trigger] t[i], ws, c) by {
            assert(t[i] == s[i]);
        }
        lemma_trim_end_at(t, b, ws, c);
        assert(t.subrange(0, b) =~= s.subrange(0, b));
    } else {
        assert(s.subrange(0, b) =~= s);
    }
}

/// The bounds of `v[lo..hi]` with the trimmed characters removed from both ends.
pub fn trim_range(v: &Vec<char>, lo: usize, hi: usize, ws: bool, c: char) -> (r: (usize, usize))
    requires
        lo <= hi <= v.len(),
    ensures
        lo <= r.0 <= r.1 <= hi,
        v@.subrange(r.0 as int, r.1 as int) == trim_end_by(
            trim_start_by(v@.subrange(lo as int, hi as int), ws, c),
            ws,
            c,
        ),
{
    let ghost s = v@.subrange(lo as int, hi as int);
    let mut a = lo;
    while a < hi && trims_exec(v[a], ws, c)
        invariant
            lo <= a <= hi <= v.len(),
            s == v@.subrange(lo as int, hi as int),
            forall|i: int| lo <= i < a ==> trims(#[trigger] v@[i], ws, c),
        decreases hi - a,
    {
        a = a + 1;
    }
    proof {
        assert forall|i: int| 0 <= i < a - lo implies trims(#[trigger] s[i], ws, c) by {
            assert(s[i] == v@[lo + i]);
        }
        lemma_trim_start_at(s, a - lo, ws, c);
    }
    let ghost t = v@.subrange(a as int, hi as int);
    assert(s.subrange(a - lo, s.len() as int) =~= t);
    let mut b = hi;
    while b > a && trims_exec(v[b - 1], ws, c)
        invariant
            lo <= a <= b <= hi <= v.len(),
            t == v@.subrange(a as int, hi as int),
            forall|i: int| b <= i < hi ==> trims(#[trigger] v@[i], ws, c),
        decreases b - a,
    {
        b = b - 1;
    }
    proof {
        assert forall|i: int| b - a <= i < t.len() implies trims(#[trigger] t[i], ws, c) by {
            assert(t[i] == v@[a + i]);
        }
        lemma_trim_end_at(t, b - a, ws, c);
        assert(t.subrange(0, b - a) =~= v@.subrange(a as int, b as int));
    }
    (a, b)
}

/// The bounds of `trim_char(trim_char(trim(v[lo..hi]), '"'), '\'')`: a config value
/// with its surrounding white space and quotes removed.
pub open spec fn clean_value(s: Seq<char>) -> Seq<char> {
    trim_char(trim_char(trim(s), '"'), '\'')
}

pub fn clean_range(v: &Vec<char>, lo: usize, hi: usize) -> (r: (usize, usize))
    requires
        lo <= hi <= v.len(),
    ensures
        lo <= r.0 <= r.1 <= hi,
        v@.subrange(r.0 as int, r.1 as int) == clean_value(v@.subrange(lo as int, hi as int)),
{
    let (a, b) = trim_range(v, lo, hi, true, ' ');
    let (c, d) = trim_range(v, a, b, false, '"');
    let (e, f) = trim_range(v, c, d, false, '\'');
    (e, f)
}

// ---------------------------------------------------------------------------
// Searching and comparing
// ---------------------------------------------------------------------------

/// Index of the first `c` in `s`.
pub open spec fn find_char(s: Seq<char>, c: char) -> Option<int>
    decreases s.len(),
{
    if s.len() == 0 {
        None
    } else if s[0] == c {
        Some(0)
    } else {
        match find_char(s.drop_first(), c) {
            Some(i) => Some(i + 1),
            None => None,
        }
    }
}

pub proof fn lemma_find_char(s: Seq<char>, c: char, k: int)
    requires
        0 <= k <= s.len(),
        forall|i: int| 0 <= i < k ==> #[trigger] s[i] != c,
    ensures
        k < s.len() && s[k] == c ==> find_char(s, c) == Some(k),
        k == s.len() ==> find_char(s, c) == None::<int>,
    decreases k,
{
    if k > 0 {
        let t = s.drop_first();
        assert forall|i: int| 0 <= i < k - 1 implies #[trigger] t[i] != c by {
            assert(t[i] == s[i + 1]);
        }
        lemma_find_char(t, c, k - 1);
        assert(s[0] != c);
    }
}

/// Position of the first `c` in `v[lo..hi]`, as an index into `v`.
pub fn find_char_range(v: &Vec<char>, lo: usize, hi: usize, c: char) -> (r: Option<usize>)
    requires
        lo <= hi <= v.len(),
    ensures
        match r {
            Some(i) => lo <= i < hi && find_char(v@.subrange(lo as int, hi as int), c) == Some(
                (i - lo) as int,
            ),
            None => find_char(v@.subrange(lo as int, hi as int), c) == None::<int>,
        },
{
    let ghost s = v@.subrange(lo as int, hi as int);
    let mut i = lo;
    while i < hi
        invariant
            lo <= i <= hi <= v.len(),
            s == v@.subrange(lo as int, hi as int),
            forall|j: int| lo <= j < i ==> v@[j] != c,
        decreases hi - i,
    {
        if v[i] == c {
            proof {
                assert forall|j: int| 0 <= j < i - lo implies #[trigger] s[j] != c by {
                    assert(s[j] == v@[lo + j]);
                }
                lemma_find_char(s, c, i - lo);
            }
            return Some(i);
        }
        i = i + 1;
    }
    proof {
        assert forall|j: int| 0 <= j < hi - lo implies #[trigger] s[j] != c by {
            assert(s[j] == v@[lo + j]);
        }
        lemma_find_char(s, c, hi - lo);
    }
    None
}

/// Whether `v[lo..hi]` spells out `lit`.
pub fn range_eq(v: &Vec<char>, lo: usize, hi: usize, lit: &str) -> (r: bool)
    requires
        lo <= hi <= v.len(),
    ensures
        r == (v@.subrange(lo as int, hi as int) == lit@),
{
    let n = lit.unicode_len();
    if n != hi - lo {
        return false;
    }
    let mut i: usize = 0;
    while i < n
        invariant
            n == lit@.len(),
            n == hi - lo,
            lo <= hi <= v.len(),
            0 <= i <= n,
            forall|j: int| 0 <= j < i ==> v@[lo + j] == lit@[j],
        decreases n - i,
    {
        if v[lo + i] != lit.get_char(i) {
            assert(v@.subrange(lo as int, hi as int)[i as int] != lit@[i as int]);
            return false;
        }
        i = i + 1;
    }
    assert(v@.subrange(lo as int, hi as int) =~= lit@);
    true
}

// ---------------------------------------------------------------------------
// Building strings
// ---------------------------------------------------------------------------

/// `String::push`: stated to leave the string's characters followed by `c`.
#[verifier::external_body]
pub(crate) fn push_char(s: &mut String, c: char)
    ensures
        final(s)@ == old(s)@.push(c),
{
    s.push(c);
}

/// The characters of `s`, in order.
pub fn chars_of(s: &str) -> (out: Vec<char>)
    ensures
        out@ == s@,
{
    let mut out: Vec<char> = Vec::new();
    for c in it: s.chars()
        invariant
            out@ == it.seq().take(it.index() as int),
    {
        out.push(c);
    }
    out
}

/// Appends `v[lo..hi]` to `s`.
pub fn push_range(s: &mut String, v: &Vec<char>, lo: usize, hi: usize)
    requires
        lo <= hi <= v.len(),
    ensures
        final(s)@ == old(s)@ + v@.subrange(lo as int, hi as int),
{
    let ghost start = s@;
    let mut i = lo;
    while i < hi
        invariant
            lo <= i <= hi <= v.len(),
            s@ == start + v@.subrange(lo as int, i as int),
        decreases hi - i,
    {
        push_char(s, v[i]);
        assert(v@.subrange(lo as int, i + 1) =~= v@.subrange(lo as int, i as int).push(v@[i as int]));
        i = i + 1;
    }
}

/// The string spelled by `v[lo..hi]`.
pub fn string_of_range(v: &Vec<char>, lo: usize, hi: usize) -> (s: String)
    requires
        lo <= hi <= v.len(),
    ensures
        s@ == v@.subrange(lo as int, hi as int),
{
    let mut s = String::new();
    push_range(&mut s, v, lo, hi);
    s
}

/// `str::trim`: `s` without the white space at either end.
pub fn trimmed(s: &str) -> (r: String)
    ensures
        r@ == trim(s@),
{
    let chars = chars_of(s);
    let (a, b) = trim_range(&chars, 0, chars.len(), true, ' ');
    assert(chars@.subrange(0, chars@.len() as int) =~= chars@);
    string_of_range(&chars, a, b)
}

// ---------------------------------------------------------------------------
// Decimal numbers
// ---------------------------------------------------------------------------

pub open spec fn digit_char(d: nat) -> char {
    (('0' as u32) + d) as char
}

/// The decimal spelling of `n`, as `Display` writes it for an unsigned integer.
pub open spec fn decimal(n: nat) -> Seq<char>
    decreases n,
{
    if n < 10 {
        seq![digit_char(n)]
    } else {
        decimal(n / 10).push(digit_char(n % 10))
    }
}

/// Appends the decimal spelling of `n` to `s`.
pub fn push_decimal(s: &mut String, n: u64)
    ensures
        final(s)@ == old(s)@ + decimal(n as nat),
    decreases n,
{
    if n >= 10 {
        push_decimal(s, n / 10);
    }
    push_char(s, char_of_digit(n % 10));
    proof {
        if n < 10 {
            assert(n % 10 == n);
        }
    }
}

fn char_of_digit(d: u64) -> (c: char)
    requires
        d < 10,
    ensures
        c == digit_char(d as nat),
{
    match d {
        0 => '0',
        1 => '1',
        2 => '2',
        3 => '3',
        4 => '4',
        5 => '5',
        6 => '6',
        7 => '7',
        8 => '8',
        _ => '9',
    }
}

} // verus!
