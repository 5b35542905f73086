//! Character-level helpers over `str` and `String`, each stated over the
//! `Seq<char>` view of the text.
use vstd::prelude::*;

verus! {

/// Unicode `White_Space`, the set that `char::is_whitespace` and `str::trim` use.
pub open spec fn is_ws(c: char) -> bool {
    let u = c as u32;
    (0x09 <= u && u <= 0x0d) || u == 0x20 || u == 0x85 || u == 0xa0 || u == 0x1680 || (0x2000 <= u
        && u <= 0x200a) || u == 0x2028 || u == 0x2029 || u == 0x202f || u == 0x205f || u == 0x3000
}

/// `s` with its leading white space removed.
pub open spec fn trim_start(s: Seq<char>) -> Seq<char>
    decreases s.len(),
{
    if s.len() > 0 && is_ws(s[0]) {
        trim_start(s.drop_first())
    } else {
        s
    }
}

/// `s` with its trailing white space removed.
pub open spec fn trim_end(s: Seq<char>) -> Seq<char>
    decreases s.len(),
{
    if s.len() > 0 && is_ws(s.last()) {
        trim_end(s.drop_last())
    } else {
        s
    }
}

/// What `str::trim` leaves of `s`.
pub open spec fn trim(s: Seq<char>) -> Seq<char> {
    trim_end(trim_start(s))
}

/// ASCII lower case of one character, as `char::to_ascii_lowercase` gives it.
pub open spec fn lower(c: char) -> char {
    if 'A' <= c && c <= 'Z' {
        ((c as u32) + 32) as char
    } else {
        c
    }
}

/// ASCII lower case of a whole text, as `str::to_ascii_lowercase` gives it.
pub open spec fn lower_seq(s: Seq<char>) -> Seq<char> {
    s.map_values(|c: char| lower(c))
}

/// Whether `needle` occurs in `hay` as a contiguous run.
pub open spec fn has_infix(hay: Seq<char>, needle: Seq<char>) -> bool {
    exists|i: int| 0 <= i && i + needle.len() <= hay.len() && #[trigger] hay.subrange(i, i + needle.len()) == needle
}

proof fn lemma_trim_start_suffix(s: Seq<char>)
    ensures
        exists|k: int| 0 <= k <= s.len() && trim_start(s) == s.subrange(k, s.len() as int) && (forall|j: int| 0 <= j < k ==> is_ws(#[trigger] s[j])) && (k < s.len() ==> !is_ws(s[k])),
    decreases s.len(),
{
    if s.len() > 0 && is_ws(s[0]) {
        lemma_trim_start_suffix(s.drop_first());
        let k = choose|k: int| 0 <= k <= s.drop_first().len() && trim_start(s.drop_first()) == s.drop_first().subrange(k, s.drop_first().len() as int) && (forall|j: int| 0 <= j < k ==> is_ws(#[trigger] s.drop_first()[j])) && (k < s.drop_first().len() ==> !is_ws(s.drop_first()[k]));
        assert(s.drop_first().subrange(k, s.drop_first().len() as int) =~= s.subrange(k + 1, s.len() as int));
        assert forall|j: int| 0 <= j < k + 1 implies is_ws(#[trigger] s[j]) by {
            if j > 0 {
                assert(s[j] == s.drop_first()[j - 1]);
            }
        }
        assert(k + 1 < s.len() ==> s[k + 1] == s.drop_first()[k]);
    } else {
        assert(s.subrange(0, s.len() as int) =~= s);
    }
}

proof fn lemma_trim_end_prefix(s: Seq<char>)
    ensures
        exists|k: int| 0 <= k <= s.len() && trim_end(s) == s.subrange(0, k) && (forall|j: int| k <= j < s.len() ==> is_ws(#[trigger] s[j])) && (k > 0 ==> !is_ws(s[k - 1])),
    decreases s.len(),
{
    if s.len() > 0 && is_ws(s.last()) {
        lemma_trim_end_prefix(s.drop_last());
        let k = choose|k: int| 0 <= k <= s.drop_last().len() && trim_end(s.drop_last()) == s.drop_last().subrange(0, k) && (forall|j: int| k <= j < s.drop_last().len() ==> is_ws(#[trigger] s.drop_last()[j])) && (k > 0 ==> !is_ws(s.drop_last()[k - 1]));
        assert(s.drop_last().subrange(0, k) =~= s.subrange(0, k));
        assert forall|j: int| k <= j < s.len() implies is_ws(#[trigger] s[j]) by {
            if j < s.len() - 1 {
                assert(s[j] == s.drop_last()[j]);
            }
        }
    } else {
        assert(s.subrange(0, s.len() as int) =~= s);
    }
}

/// The characters of `s`, one by one.
pub fn chars_of(s: &str) -> (out: Vec<char>)
    ensures
        out@ == s@,
{
    let n = s.unicode_len();
    let mut out: Vec<char> = Vec::new();
    let mut i: usize = 0;
    while i < n
        invariant
            n == s@.len(),
            i <= n,
            out@ == s@.subrange(0, i as int),
        decreases n - i,
    {
        let c = s.get_char(i);
        out.push(c);
        i = i + 1;
        assert(out@ =~= s@.subrange(0, i as int));
    }
    assert(out@ =~= s@);
    out
}

/// A copy of `s` as an owned `String`.
pub fn owned(s: &str) -> (out: String)
    ensures
        out@ == s@,
{
    s.to_owned()
}

/// The concatenation of `a` and `b`.
pub fn concat(a: &str, b: &str) -> (out: String)
    ensures
        out@ == a@ + b@,
{
    let mut out = a.to_owned();
    out.append(b);
    out
}

/// Whether `s` starts with `prefix`, as `str::starts_with` answers.
pub fn starts_with(s: &str, prefix: &str) -> (b: bool)
    ensures
        b == prefix@.is_prefix_of(s@),
{
    let n = s.unicode_len();
    let m = prefix.unicode_len();
    if m > n {
        return false;
    }
    let mut i: usize = 0;
    while i < m
        invariant
            n == s@.len(),
            m == prefix@.len(),
            m <= n,
            i <= m,
            forall|j: int| 0 <= j < i ==> prefix@[j] == s@[j],
        decreases m - i,
    {
        if s.get_char(i) != prefix.get_char(i) {
            return false;
        }
        i = i + 1;
    }
    true
}

/// Whether the two texts are equal, as `==` on `str` answers.
pub fn str_eq(a: &str, b: &str) -> (r: bool)
    ensures
        r == (a@ == b@),
{
    let n = a.unicode_len();
    if n != b.unicode_len() {
        return false;
    }
    let mut i: usize = 0;
    while i < n
        invariant
            n == a@.len(),
            n == b@.len(),
            i <= n,
            forall|j: int| 0 <= j < i ==> a@[j] == b@[j],
        decreases n - i,
    {
        if a.get_char(i) != b.get_char(i) {
            return false;
        }
        i = i + 1;
    }
    assert(a@ =~= b@);
    true
}

/// The text of `s` without its leading and trailing white space, as `str::trim` gives it.
pub fn trimmed(s: &str) -> (out: String)
    ensures
        out@ == trim(s@),
{
    let n = s.unicode_len();
    let mut start: usize = 0;
    while start < n && is_whitespace(s.get_char(start))
        invariant
            n == s@.len(),
            start <= n,
            forall|j: int| 0 <= j < start ==> is_ws(#[trigger] s@[j]),
        decreases n - start,
    {
        start = start + 1;
    }
    let mut end: usize = n;
    while end > start && is_whitespace(s.get_char(end - 1))
        invariant
            n == s@.len(),
            start <= end <= n,
            forall|j: int| end <= j < n ==> is_ws(#[trigger] s@[j]),
        decreases end - start,
    {
        end = end - 1;
    }
    let out = s.substring_char(start, end).to_owned();
    proof {
        lemma_trim_start_suffix(s@);
        let k = choose|k: int| 0 <= k <= s@.len() && trim_start(s@) == s@.subrange(k, s@.len() as int) && (forall|j: int| 0 <= j < k ==> is_ws(#[trigger] s@[j])) && (k < s@.len() ==> !is_ws(s@[k]));
        // the first non-white position is `start` unless all is white
        if start < n {
            assert(!is_ws(s@[start as int]));
            if k < start {
                assert(is_ws(s@[k]));
            }
            if k > start {
                assert(is_ws(s@[start as int]));
            }
            assert(k == start);
        } else {
            if k < n {
                assert(is_ws(s@[k]));
            }
            assert(k == n);
        }
        let t = trim_start(s@);
        lemma_trim_end_prefix(t);
        let e = choose|e: int| 0 <= e <= t.len() && trim_end(t) == t.subrange(0, e) && (forall|j: int| e <= j < t.len() ==> is_ws(#[trigger] t[j])) && (e > 0 ==> !is_ws(t[e - 1]));
        assert(t.len() == n - start);
        assert forall|j: int| 0 <= j < t.len() implies t[j] == s@[start + j] by {}
        if end > start {
            assert(!is_ws(t[end - start - 1]));
            if e < end - start {
                assert(is_ws(t[end - start - 1]));
            }
            if e > end - start {
                assert(is_ws(t[e - 1]));
                assert(t[e - 1] == s@[start + e - 1]);
            }
            assert(e == end - start);
        } else {
            if e > 0 {
                assert(t[e - 1] == s@[start + e - 1]);
                assert(is_ws(s@[start + e - 1]));
            }
            assert(e == 0);
        }
        assert(t.subrange(0, e) =~= s@.subrange(start as int, end as int));
    }
    out
}

/// Whether `c` is white space, as `char::is_whitespace` answers.
pub fn is_whitespace(c: char) -> (b: bool)
    ensures
        b == is_ws(c),
{
    let u = c as u32;
    (0x09 <= u && u <= 0x0d) || u == 0x20 || u == 0x85 || u == 0xa0 || u == 0x1680 || (0x2000 <= u
        && u <= 0x200a) || u == 0x2028 || u == 0x2029 || u == 0x202f || u == 0x205f || u == 0x3000
}

/// The ASCII lower case of `c`, as `char::to_ascii_lowercase` gives it.
pub fn to_lower(c: char) -> (d: char)
    ensures
        d == lower(c),
{
    if 'A' <= c && c <= 'Z' {
        let u: u32 = (c as u32) + 32;
        char_from_ascii(u)
    } else {
        c
    }
}

fn char_from_ascii(u: u32) -> (c: char)
    requires
        u < 128,
    ensures
        c == u as char,
{
    let b: u8 = u as u8;
    b as char
}

/// Whether the two texts agree up to ASCII case, as `str::eq_ignore_ascii_case` answers.
pub fn eq_ignore_ascii_case(a: &str, b: &str) -> (r: bool)
    ensures
        r == (lower_seq(a@) == lower_seq(b@)),
{
    let n = a.unicode_len();
    if n != b.unicode_len() {
        proof {
            assert(lower_seq(a@).len() != lower_seq(b@).len());
        }
        return false;
    }
    let mut i: usize = 0;
    while i < n
        invariant
            n == a@.len(),
            n == b@.len(),
            i <= n,
            forall|j: int| 0 <= j < i ==> lower(a@[j]) == lower(b@[j]),
        decreases n - i,
    {
        if to_lower(a.get_char(i)) != to_lower(b.get_char(i)) {
            proof {
                assert(lower_seq(a@)[i as int] != lower_seq(b@)[i as int]);
            }
            return false;
        }
        i = i + 1;
    }
    assert(lower_seq(a@) =~= lower_seq(b@));
    true
}

/// Whether `needle` occurs in the ASCII-lower-cased `hay`, as
/// `hay.to_ascii_lowercase().contains(needle)` answers.
pub fn contains_lowered(hay: &str, needle: &Vec<char>) -> (r: bool)
    ensures
        r == has_infix(lower_seq(hay@), needle@),
{
    let h = chars_of(hay);
    let n = h.len();
    let m = needle.len();
    let ghost lh = lower_seq(hay@);
    if m > n {
        proof {
            assert forall|i: int| 0 <= i && i + needle@.len() <= lh.len() implies #[trigger] lh.subrange(i, i + needle@.len()) != needle@ by {}
        }
        return false;
    }
    if m == 0 {
        proof {
            assert(lh.subrange(0int, 0int + needle@.len()) =~= needle@);
        }
        return true;
    }
    let mut i: usize = 0;
    while i <= n - m
        invariant
            h@ == hay@,
            n == h@.len(),
            m == needle@.len(),
            lh == lower_seq(hay@),
            1 <= m <= n,
            i <= n - m + 1,
            forall|p: int| 0 <= p < i ==> #[trigger] lh.subrange(p, p + m) != needle@,
        decreases n - m + 1 - i,
    {
        let mut j: usize = 0;
        let mut ok = true;
        while j < m
            invariant
                h@ == hay@,
                n == h@.len(),
                m == needle@.len(),
                i + m <= n,
                j <= m,
                ok ==> forall|q: int| 0 <= q < j ==> lower(h@[i + q]) == needle@[q],
                !ok ==> lh.subrange(i as int, i + m) != needle@,
                lh == lower_seq(hay@),
            decreases m - j,
        {
            if to_lower(h[i + j]) != needle[j] {
                proof {
                    assert(lh.subrange(i as int, i + m)[j as int] == lower(h@[i + j]));
                }
                ok = false;
            }
            j = j + 1;
        }
        if ok {
            proof {
                assert(lh.subrange(i as int, i + needle@.len()) =~= needle@);
            }
            return true;
        }
        i = i + 1;
    }
    proof {
        assert forall|p: int| 0 <= p && p + needle@.len() <= lh.len() implies #[trigger] lh.subrange(p, p + needle@.len()) != needle@ by {
            assert(p < i);
        }
    }
    false
}

/// The ASCII lower case of the characters of `s`.
pub fn lowered_chars(s: &str) -> (out: Vec<char>)
    ensures
        out@ == lower_seq(s@),
{
    let h = chars_of(s);
    let mut out: Vec<char> = Vec::new();
    let mut i: usize = 0;
    while i < h.len()
        invariant
            h@ == s@,
            i <= h@.len(),
            out@ == lower_seq(s@).subrange(0, i as int),
        decreases h@.len() - i,
    {
        out.push(to_lower(h[i]));
        i = i + 1;
        assert(out@ =~= lower_seq(s@).subrange(0, i as int));
    }
    assert(out@ =~= lower_seq(s@));
    out
}

/// The ASCII lower case of `s`, as `str::to_ascii_lowercase` gives it: each
/// of `A`..`Z` becomes its lower-case letter, every other character stays.
pub fn ascii_lowercase(s: &str) -> (out: String)
    ensures
        out@ == lower_seq(s@),
{
    let letters = "abcdefghijklmnopqrstuvwxyz";
    proof {
        reveal_strlit("abcdefghijklmnopqrstuvwxyz");
    }
    let n = s.unicode_len();
    let mut out = String::new();
    let mut i: usize = 0;
    while i < n
        invariant
            n == s@.len(),
            i <= n,
            letters@.len() == 26,
            forall|k: int| 0 <= k < 26 ==> #[trigger] letters@[k] == ((97 + k) as u32) as char,
            out@ == lower_seq(s@).subrange(0, i as int),
        decreases n - i,
    {
        let c = s.get_char(i);
        if 'A' <= c && c <= 'Z' {
            let k: usize = ((c as u32) - 65) as usize;
            let piece = letters.substring_char(k, k + 1);
            out.append(piece);
            proof {
                assert(piece@ =~= seq![lower(c)]);
            }
        } else {
            out.append(s.substring_char(i, i + 1));
        }
        i = i + 1;
        proof {
            assert(out@ =~= lower_seq(s@).subrange(0, i as int));
        }
    }
    proof {
        assert(lower_seq(s@).subrange(0, n as int) =~= lower_seq(s@));
    }
    out
}

/// The digit `d` (below 16), in lower case.
pub open spec fn digit_char(d: nat) -> char {
    if d < 10 {
        (48 + d) as char
    } else {
        (87 + d) as char
    }
}

/// The decimal text of `n`, as `to_string` writes it.
pub open spec fn decimal_text(n: nat) -> Seq<char>
    decreases n,
{
    if n < 10 {
        seq![digit_char(n)]
    } else {
        decimal_text(n / 10).push(digit_char(n % 10))
    }
}

/// The lowest `width` hexadecimal digits of `n`, in lower case and padded with
/// zeros, as `format!("{:0width$x}")` writes a number below `16^width`.
pub open spec fn hex_text(n: nat, width: nat) -> Seq<char>
    decreases width,
{
    if width == 0 {
        Seq::empty()
    } else {
        hex_text(n / 16, (width - 1) as nat).push(digit_char(n % 16))
    }
}

/// The text of one digit.
fn digit_str(d: u64) -> (s: &'static str)
    requires
        d < 16,
    ensures
        s@ == seq![digit_char(d as nat)],
{
    if d == 0 {
        proof {
            reveal_strlit("0");
        }
        "0"
    } else if d == 1 {
        proof {
            reveal_strlit("1");
        }
        "1"
    } else if d == 2 {
        proof {
            reveal_strlit("2");
        }
        "2"
    } else if d == 3 {
        proof {
            reveal_strlit("3");
        }
        "3"
    } else if d == 4 {
        proof {
            reveal_strlit("4");
        }
        "4"
    } else if d == 5 {
        proof {
            reveal_strlit("5");
        }
        "5"
    } else if d == 6 {
        proof {
            reveal_strlit("6");
        }
        "6"
    } else if d == 7 {
        proof {
            reveal_strlit("7");
        }
        "7"
    } else if d == 8 {
        proof {
            reveal_strlit("8");
        }
        "8"
    } else if d == 9 {
        proof {
            reveal_strlit("9");
        }
        "9"
    } else if d == 10 {
        proof {
            reveal_strlit("a");
        }
        "a"
    } else if d == 11 {
        proof {
            reveal_strlit("b");
        }
        "b"
    } else if d == 12 {
        proof {
            reveal_strlit("c");
        }
        "c"
    } else if d == 13 {
        proof {
            reveal_strlit("d");
        }
        "d"
    } else if d == 14 {
        proof {
            reveal_strlit("e");
        }
        "e"
    } else {
        proof {
            reveal_strlit("f");
        }
        "f"
    }
}

/// The decimal text of `n`.
pub fn decimal(n: u64) -> (s: String)
    ensures
        s@ == decimal_text(n as nat),
    decreases n,
{
    if n < 10 {
        owned(digit_str(n))
    } else {
        let head = decimal(n / 10);
        concat(head.as_str(), digit_str(n % 10))
    }
}

/// The lowest `width` hexadecimal digits of `n`, padded with zeros.
pub fn hex_digits(n: u64, width: u64) -> (s: String)
    ensures
        s@ == hex_text(n as nat, width as nat),
    decreases width,
{
    if width == 0 {
        String::new()
    } else {
        let head = hex_digits(n / 16, width - 1);
        concat(head.as_str(), digit_str(n % 16))
    }
}

} // verus!
