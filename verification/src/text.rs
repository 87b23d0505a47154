//! Text helpers on `String`/`&str`, specified over `Seq<char>`.

use vstd::prelude::*;

verus! {

/// Unicode `White_Space`, the set that `char::is_whitespace` and `str::trim` use.
pub open spec fn is_ws(c: char) -> bool {
    let u = c as u32;
    ||| 0x9 <= u <= 0xD
    ||| u == 0x20
    ||| u == 0x85
    ||| u == 0xA0
    ||| u == 0x1680
    ||| 0x2000 <= u <= 0x200A
    ||| u == 0x2028
    ||| u == 0x2029
    ||| u == 0x202F
    ||| u == 0x205F
    ||| u == 0x3000
}

/// A text whose `trim()` is empty: every character is whitespace.
pub open spec fn all_ws(s: Seq<char>) -> bool {
    forall|i: int| 0 <= i < s.len() ==> is_ws(#[trigger] s[i])
}

/// `s` with leading whitespace removed (`trim_start`).
pub open spec fn trim_start(s: Seq<char>) -> Seq<char>
    decreases s.len(),
{
    if s.len() > 0 && is_ws(s[0]) {
        trim_start(s.drop_first())
    } else {
        s
    }
}

/// `s` with trailing whitespace removed (`trim_end`).
pub open spec fn trim_end(s: Seq<char>) -> Seq<char>
    decreases s.len(),
{
    if s.len() > 0 && is_ws(s.last()) {
        trim_end(s.drop_last())
    } else {
        s
    }
}

/// `str::trim`.
pub open spec fn trimmed(s: Seq<char>) -> Seq<char> {
    trim_end(trim_start(s))
}

/// `char::to_ascii_lowercase`.
pub open spec fn ascii_lower(c: char) -> char {
    if 'A' <= c <= 'Z' {
        ((c as u32) + 32) as char
    } else {
        c
    }
}

/// `str::to_ascii_lowercase`.
pub open spec fn lower(s: Seq<char>) -> Seq<char> {
    s.map_values(|c: char| ascii_lower(c))
}

/// Decimal digit character of `d < 10`.
pub open spec fn digit_char(d: nat) -> char {
    if d == 0 { '0' }
    else if d == 1 { '1' }
    else if d == 2 { '2' }
    else if d == 3 { '3' }
    else if d == 4 { '4' }
    else if d == 5 { '5' }
    else if d == 6 { '6' }
    else if d == 7 { '7' }
    else if d == 8 { '8' }
    else { '9' }
}

/// Decimal rendering of a natural number (what `Display` prints for unsigned integers).
pub open spec fn decimal(n: nat) -> Seq<char>
    decreases n,
{
    if n < 10 {
        seq![digit_char(n)]
    } else {
        decimal(n / 10).push(digit_char(n % 10))
    }
}

/// Lower-case hexadecimal digit character of `d < 16`.
pub open spec fn hex_char(d: nat) -> char {
    if d < 10 { digit_char(d) }
    else if d == 10 { 'a' }
    else if d == 11 { 'b' }
    else if d == 12 { 'c' }
    else if d == 13 { 'd' }
    else if d == 14 { 'e' }
    else { 'f' }
}

/// The `width` lowest hexadecimal digits of `n`, most significant first, zero padded.
pub open spec fn hex_digits(n: nat, width: nat) -> Seq<char>
    decreases width,
{
    if width == 0 {
        Seq::empty()
    } else {
        hex_digits(n / 16, (width - 1) as nat).push(hex_char(n % 16))
    }
}

/// `hex_digits` has exactly `width` characters.
pub proof fn lemma_hex_digits_len(n: nat, width: nat)
    ensures
        hex_digits(n, width).len() == width,
    decreases width,
{
    if width > 0 {
        lemma_hex_digits_len(n / 16, (width - 1) as nat);
    }
}

/// Value of a non-empty sequence of ASCII decimal digits.
pub open spec fn digits_value(s: Seq<char>) -> nat
    decreases s.len(),
{
    if s.len() == 0 {
        0
    } else {
        digits_value(s.drop_last()) * 10 + ((s.last() as u32) - ('0' as u32)) as nat
    }
}

pub open spec fn is_digit(c: char) -> bool {
    '0' <= c <= '9'
}

pub open spec fn all_digits(s: Seq<char>) -> bool {
    forall|i: int| 0 <= i < s.len() ==> is_digit(#[trigger] s[i])
}

/// `u16::from_str`: an optional `+`, then at least one ASCII digit, and a value below 2^16.
pub open spec fn parse_u16_spec(s: Seq<char>) -> Option<u16> {
    let d = if s.len() > 0 && s[0] == '+' { s.drop_first() } else { s };
    if d.len() > 0 && all_digits(d) && digits_value(d) <= u16::MAX {
        Some(digits_value(d) as u16)
    } else {
        None
    }
}

/// Lexicographic order by code point, which is the order of `String`'s `Ord`.
pub open spec fn str_lt(a: Seq<char>, b: Seq<char>) -> bool
    decreases a.len(),
{
    if a.len() == 0 {
        b.len() > 0
    } else if b.len() == 0 {
        false
    } else if a[0] != b[0] {
        a[0] < b[0]
    } else {
        str_lt(a.drop_first(), b.drop_first())
    }
}

/// `needle` occurs in `hay` at position `i`.
pub open spec fn occurs_at(hay: Seq<char>, needle: Seq<char>, i: int) -> bool {
    0 <= i && i + needle.len() <= hay.len() && hay.subrange(i, i + needle.len()) == needle
}

/// `str::contains` with a string pattern.
pub open spec fn contains_str(hay: Seq<char>, needle: Seq<char>) -> bool {
    exists|i: int| occurs_at(hay, needle, i)
}

/// Index of the first occurrence of `c` in `s`, if any.
pub open spec fn first_index_of(s: Seq<char>, c: char) -> Option<int> {
    if exists|i: int| 0 <= i < s.len() && s[i] == c {
        Some(choose|i: int| 0 <= i < s.len() && s[i] == c && forall|j: int| 0 <= j < i ==> s[j] != c)
    } else {
        None
    }
}

/// Copies the characters of `s` into a vector.
pub fn chars_of(s: &str) -> (r: Vec<char>)
    ensures
        r@ == s@,
{
    let mut r: Vec<char> = Vec::new();
    for c in it: s.chars()
        invariant
            r@ == it.seq().take(it.index()),
            it.seq() == s@,
    {
        r.push(c);
        assert(r@ == it.seq().take(it.index() + 1));
    }
    assert(r@ == s@);
    r
}

/// Appends one character (`String::push`).
#[verifier::external_body]
pub(crate) fn push_char(s: &mut String, c: char)
    ensures
        final(s)@ == old(s)@.push(c),
{
    s.push(c);
}

/// Builds a `String` from characters.
pub fn string_of(v: &[char]) -> (r: String)
    ensures
        r@ == v@,
{
    let mut r = String::new();
    let mut i: usize = 0;
    while i < v.len()
        invariant
            i <= v@.len(),
            r@ == v@.take(i as int),
        decreases v@.len() - i,
    {
        push_char(&mut r, v[i]);
        assert(v@.take(i as int).push(v@[i as int]) == v@.take(i + 1));
        i = i + 1;
    }
    assert(v@.take(v@.len() as int) == v@);
    r
}

/// Copies a string slice into a new `String`.
pub fn owned(s: &str) -> (r: String)
    ensures
        r@ == s@,
{
    String::from_str(s)
}

/// Concatenation of two texts.
pub fn concat2(a: &str, b: &str) -> (r: String)
    ensures
        r@ == a@ + b@,
{
    let mut r = String::from_str(a);
    r.append(b);
    r
}

/// Concatenation of three texts.
pub fn concat3(a: &str, b: &str, c: &str) -> (r: String)
    ensures
        r@ == a@ + b@ + c@,
{
    let mut r = String::from_str(a);
    r.append(b);
    r.append(c);
    r
}

/// `char::is_whitespace`.
pub fn is_whitespace(c: char) -> (r: bool)
    ensures
        r == is_ws(c),
{
    let u = c as u32;
    (0x9 <= u && u <= 0xD) || u == 0x20 || u == 0x85 || u == 0xA0 || u == 0x1680 || (0x2000
        <= u && u <= 0x200A) || u == 0x2028 || u == 0x2029 || u == 0x202F || u == 0x205F || u
        == 0x3000
}

/// `s.trim().is_empty()`.
pub fn is_blank(s: &str) -> (r: bool)
    ensures
        r == all_ws(s@),
{
    let v = chars_of(s);
    let mut i: usize = 0;
    while i < v.len()
        invariant
            v@ == s@,
            i <= v@.len(),
            forall|j: int| 0 <= j < i ==> is_ws(#[trigger] v@[j]),
        decreases v@.len() - i,
    {
        if !is_whitespace(v[i]) {
            return false;
        }
        i = i + 1;
    }
    true
}

pub proof fn lemma_trim_start_all_ws(s: Seq<char>)
    ensures
        all_ws(s) <==> trim_start(s).len() == 0,
    decreases s.len(),
{
    if s.len() > 0 {
        if is_ws(s[0]) {
            lemma_trim_start_all_ws(s.drop_first());
            if all_ws(s.drop_first()) {
                assert forall|i: int| 0 <= i < s.len() implies is_ws(#[trigger] s[i]) by {
                    if i > 0 {
                        assert(s[i] == s.drop_first()[i - 1]);
                    }
                }
            }
            if all_ws(s) {
                assert forall|i: int| 0 <= i < s.drop_first().len() implies is_ws(
                    #[trigger] s.drop_first()[i],
                ) by {
                    assert(s.drop_first()[i] == s[i + 1]);
                }
            }
        }
    }
}

/// `trim().is_empty()` holds exactly of the all-whitespace texts.
pub proof fn lemma_trimmed_empty(s: Seq<char>)
    ensures
        all_ws(s) <==> trimmed(s).len() == 0,
{
    lemma_trim_start_all_ws(s);
    lemma_trim_end_len(trim_start(s));
    lemma_trim_start_head(s);
    let t = trim_start(s);
    if trimmed(s).len() == 0 && t.len() > 0 {
        assert(is_ws(t[0]));
    }
}

pub proof fn lemma_trim_start_head(s: Seq<char>)
    ensures
        trim_start(s).len() > 0 ==> !is_ws(trim_start(s)[0]),
    decreases s.len(),
{
    if s.len() > 0 && is_ws(s[0]) {
        lemma_trim_start_head(s.drop_first());
    }
}

pub proof fn lemma_trim_end_len(s: Seq<char>)
    ensures
        trim_end(s).len() <= s.len(),
        trim_end(s).len() == 0 ==> all_ws(s),
    decreases s.len(),
{
    if s.len() > 0 && is_ws(s.last()) {
        lemma_trim_end_len(s.drop_last());
        if trim_end(s).len() == 0 {
            assert forall|i: int| 0 <= i < s.len() implies is_ws(#[trigger] s[i]) by {
                if i < s.len() - 1 {
                    assert(s[i] == s.drop_last()[i]);
                }
            }
        }
    }
}


/// Skipping the leading whitespace up to the first other character is `trim_start`.
pub proof fn lemma_trim_start_skip(s: Seq<char>, i: int)
    requires
        0 <= i <= s.len(),
        forall|j: int| 0 <= j < i ==> is_ws(#[trigger] s[j]),
        i == s.len() || !is_ws(s[i]),
    ensures
        trim_start(s) == s.subrange(i, s.len() as int),
    decreases i,
{
    if i == 0 {
        assert(s.subrange(0, s.len() as int) =~= s);
    } else {
        let t = s.drop_first();
        assert forall|j: int| 0 <= j < i - 1 implies is_ws(#[trigger] t[j]) by {
            assert(t[j] == s[j + 1]);
        }
        if i - 1 < t.len() {
            assert(t[i - 1] == s[i]);
        }
        lemma_trim_start_skip(t, i - 1);
        assert(t.subrange(i - 1, t.len() as int) =~= s.subrange(i, s.len() as int));
    }
}

/// Cutting the trailing whitespace after the last other character is `trim_end`.
pub proof fn lemma_trim_end_take(s: Seq<char>, k: int)
    requires
        0 <= k <= s.len(),
        forall|j: int| k <= j < s.len() ==> is_ws(#[trigger] s[j]),
        k == 0 || !is_ws(s[k - 1]),
    ensures
        trim_end(s) == s.take(k),
    decreases s.len() - k,
{
    if k == s.len() {
        assert(s.take(k) =~= s);
    } else {
        let t = s.drop_last();
        assert(is_ws(s[s.len() - 1]));
        assert forall|j: int| k <= j < t.len() implies is_ws(#[trigger] t[j]) by {
            assert(t[j] == s[j]);
        }
        if k > 0 {
            assert(t[k - 1] == s[k - 1]);
        }
        lemma_trim_end_take(t, k);
        assert(t.take(k) =~= s.take(k));
    }
}

/// `str::trim`: the text without leading and trailing whitespace.
pub fn trim_text(s: &str) -> (r: String)
    ensures
        r@ == trimmed(s@),
{
    let v = chars_of(s);
    let n = v.len();
    let mut i: usize = 0;
    while i < n && is_whitespace(v[i])
        invariant
            v@ == s@,
            n == v@.len(),
            i <= n,
            forall|j: int| 0 <= j < i ==> is_ws(#[trigger] v@[j]),
        decreases n - i,
    {
        i = i + 1;
    }
    proof {
        lemma_trim_start_skip(s@, i as int);
    }
    let ghost t = s@.subrange(i as int, n as int);
    let mut k: usize = n;
    while k > i && is_whitespace(v[k - 1])
        invariant
            v@ == s@,
            n == v@.len(),
            i <= k <= n,
            t == s@.subrange(i as int, n as int),
            forall|j: int| k <= j < n ==> is_ws(#[trigger] v@[j]),
        decreases k,
    {
        k = k - 1;
    }
    proof {
        let kk = (k - i) as int;
        assert forall|j: int| kk <= j < t.len() implies is_ws(#[trigger] t[j]) by {
            assert(t[j] == v@[j + i]);
        }
        if kk > 0 {
            assert(t[kk - 1] == v@[k - 1]);
        }
        lemma_trim_end_take(t, kk);
        assert(t.take(kk) =~= v@.subrange(i as int, k as int));
    }
    let w = slice_chars(&v, i, k);
    string_of(w.as_slice())
}

/// Position of the first `c` in `v`, if any.
pub fn find_char(v: &Vec<char>, c: char) -> (r: Option<usize>)
    ensures
        r.is_some() == first_index_of(v@, c).is_some(),
        r.is_some() ==> first_index_of(v@, c) == Some(r.unwrap() as int),
        r.is_some() ==> r.unwrap() < v@.len() && v@[r.unwrap() as int] == c,
{
    let mut i: usize = 0;
    while i < v.len()
        invariant
            i <= v@.len(),
            forall|j: int| 0 <= j < i ==> v@[j] != c,
        decreases v@.len() - i,
    {
        if v[i] == c {
            proof {
                let s = v@;
                assert(0 <= i < s.len() && s[i as int] == c);
                let w = choose|w: int| 0 <= w < s.len() && s[w] == c && forall|j: int| 0 <= j < w ==> s[j] != c;
                assert(0 <= i < s.len() && s[i as int] == c && forall|j: int| 0 <= j < i ==> s[j] != c);
                assert(w == i);
            }
            return Some(i);
        }
        i = i + 1;
    }
    None
}

/// Whether two character vectors hold the same text.
pub fn chars_equal(a: &Vec<char>, b: &Vec<char>) -> (r: bool)
    ensures
        r == (a@ == b@),
{
    if a.len() != b.len() {
        return false;
    }
    let mut i: usize = 0;
    while i < a.len()
        invariant
            i <= a@.len(),
            a@.len() == b@.len(),
            forall|j: int| 0 <= j < i ==> a@[j] == b@[j],
        decreases a@.len() - i,
    {
        if a[i] != b[i] {
            return false;
        }
        i = i + 1;
    }
    assert(a@ =~= b@);
    true
}


/// `str_lt` is irreflexive.
pub proof fn lemma_str_lt_irreflexive(a: Seq<char>)
    ensures
        !str_lt(a, a),
    decreases a.len(),
{
    if a.len() > 0 {
        lemma_str_lt_irreflexive(a.drop_first());
    }
}

/// Distinct texts are ordered one way or the other, and never both ways.
pub proof fn lemma_str_lt_total(a: Seq<char>, b: Seq<char>)
    ensures
        a != b ==> (str_lt(a, b) || str_lt(b, a)),
        !(str_lt(a, b) && str_lt(b, a)),
    decreases a.len(),
{
    if a.len() > 0 && b.len() > 0 && a[0] == b[0] {
        lemma_str_lt_total(a.drop_first(), b.drop_first());
        if a != b {
            assert(a.drop_first() != b.drop_first()) by {
                if a.drop_first() == b.drop_first() {
                    assert(a =~= seq![a[0]] + a.drop_first());
                    assert(b =~= seq![b[0]] + b.drop_first());
                }
            }
        }
    } else if a.len() == 0 && b.len() == 0 {
        assert(a =~= b);
    }
}

/// Texts that agree before position `p` and differ there are ordered by that character.
pub proof fn lemma_str_lt_at(a: Seq<char>, b: Seq<char>, p: int)
    requires
        0 <= p < a.len(),
        p < b.len(),
        forall|j: int| 0 <= j < p ==> a[j] == b[j],
        a[p] < b[p],
    ensures
        str_lt(a, b),
    decreases p,
{
    if p > 0 {
        assert forall|j: int| 0 <= j < p - 1 implies a.drop_first()[j] == b.drop_first()[j] by {
            assert(a[j + 1] == b[j + 1]);
        }
        lemma_str_lt_at(a.drop_first(), b.drop_first(), p - 1);
        assert(a[0] == b[0]);
    }
}

/// `str_lt` is transitive.
pub proof fn lemma_str_lt_transitive(a: Seq<char>, b: Seq<char>, c: Seq<char>)
    requires
        str_lt(a, b),
        str_lt(b, c),
    ensures
        str_lt(a, c),
    decreases a.len(),
{
    if a.len() > 0 && b.len() > 0 && c.len() > 0 && a[0] == b[0] && b[0] == c[0] {
        lemma_str_lt_transitive(a.drop_first(), b.drop_first(), c.drop_first());
    }
}

/// Whether `a` comes before `b` in `String` order.
pub fn chars_less(a: &Vec<char>, b: &Vec<char>) -> (r: bool)
    ensures
        r == str_lt(a@, b@),
{
    let mut i: usize = 0;
    assert(a@.skip(0) == a@);
    assert(b@.skip(0) == b@);
    while i < a.len() && i < b.len()
        invariant
            i <= a@.len(),
            i <= b@.len(),
            str_lt(a@, b@) == str_lt(a@.skip(i as int), b@.skip(i as int)),
        decreases a@.len() - i,
    {
        if a[i] != b[i] {
            assert(a@.skip(i as int)[0] == a@[i as int]);
            assert(b@.skip(i as int)[0] == b@[i as int]);
            return a[i] < b[i];
        }
        assert(a@.skip(i as int).drop_first() == a@.skip(i + 1));
        assert(b@.skip(i as int).drop_first() == b@.skip(i + 1));
        i = i + 1;
    }
    i < b.len()
}


/// The texts of a vector of strings.
pub open spec fn texts(v: Seq<String>) -> Seq<Seq<char>> {
    v.map_values(|s: String| s@)
}

/// Strictly increasing in `String` order: sorted, with nothing twice.
pub open spec fn sorted_strict(xs: Seq<Seq<char>>) -> bool {
    forall|i: int, j: int| 0 <= i < j < xs.len() ==> str_lt(#[trigger] xs[i], #[trigger] xs[j])
}

/// Adds `s` to a sorted set of strings kept as a vector (`BTreeSet::insert`).
pub fn insert_sorted(v: &mut Vec<String>, s: String)
    requires
        sorted_strict(texts(old(v)@)),
    ensures
        sorted_strict(texts(final(v)@)),
        forall|t: Seq<char>| texts(final(v)@).contains(t) <==> (texts(old(v)@).contains(t) || t == s@),
{
    let sc = chars_of(s.as_str());
    let ghost old_t = texts(v@);
    let mut i: usize = 0;
    while i < v.len()
        invariant
            i <= v@.len(),
            sc@ == s@,
            old_t == texts(v@),
            sorted_strict(old_t),
            forall|j: int| 0 <= j < i ==> str_lt(#[trigger] old_t[j], s@),
        ensures
            i <= v@.len(),
            forall|j: int| 0 <= j < i ==> str_lt(#[trigger] old_t[j], s@),
            i < v@.len() ==> !str_lt(old_t[i as int], s@),
        decreases v@.len() - i,
    {
        let vc = chars_of(v[i].as_str());
        assert(old_t[i as int] == v@[i as int]@);
        if !chars_less(&vc, &sc) {
            break;
        }
        i = i + 1;
    }
    if i < v.len() && v[i] == s {
        proof {
            assert forall|t: Seq<char>| texts(v@).contains(t) <==> (old_t.contains(t) || t == s@) by {
                if t == s@ {
                    assert(old_t[i as int] == s@);
                }
            }
        }
        return;
    }
    proof {
        if i < v@.len() {
            assert(old_t[i as int] == v@[i as int]@);
            lemma_str_lt_total(old_t[i as int], s@);
            assert(str_lt(s@, old_t[i as int]));
        }
    }
    v.insert(i, s);
    proof {
        let nt = texts(v@);
        assert(nt.len() == old_t.len() + 1);
        assert forall|j: int| 0 <= j < nt.len() implies #[trigger] nt[j] == (if j < i {
            old_t[j]
        } else if j == i {
            s@
        } else {
            old_t[j - 1]
        }) by {}
        assert forall|a: int, b: int| 0 <= a < b < nt.len() implies str_lt(#[trigger] nt[a], #[trigger] nt[b]) by {
            if b < i {
            } else if b == i {
            } else if a < i {
                assert(str_lt(old_t[a], s@));
                if b - 1 > i as int {
                    assert(str_lt(old_t[i as int], old_t[b - 1]));
                    lemma_str_lt_transitive(s@, old_t[i as int], old_t[b - 1]);
                }
                lemma_str_lt_transitive(old_t[a], s@, old_t[b - 1]);
            } else if a == i {
                if b - 1 > i as int {
                    assert(str_lt(old_t[i as int], old_t[b - 1]));
                    lemma_str_lt_transitive(s@, old_t[i as int], old_t[b - 1]);
                }
            } else {
            }
        }
        assert forall|t: Seq<char>| nt.contains(t) <==> (old_t.contains(t) || t == s@) by {
            if nt.contains(t) {
                let j = choose|j: int| 0 <= j < nt.len() && nt[j] == t;
                if j < i {
                    assert(old_t[j] == t);
                } else if j > i {
                    assert(old_t[j - 1] == t);
                }
            }
            if old_t.contains(t) {
                let j = choose|j: int| 0 <= j < old_t.len() && old_t[j] == t;
                if j < i {
                    assert(nt[j] == t);
                } else {
                    assert(nt[j + 1] == t);
                }
            }
            if t == s@ {
                assert(nt[i as int] == t);
            }
        }
    }
}


/// Whether `needle` occurs in `hay` at position `i`.
pub fn chars_occur_at(hay: &Vec<char>, needle: &Vec<char>, i: usize) -> (r: bool)
    requires
        i + needle@.len() <= hay@.len(),
    ensures
        r == occurs_at(hay@, needle@, i as int),
{
    let hl = hay.len();
    let mut k: usize = 0;
    while k < needle.len()
        invariant
            k <= needle@.len(),
            hl == hay@.len(),
            i + needle@.len() <= hay@.len(),
            forall|j: int| 0 <= j < k ==> hay@[i + j] == needle@[j],
        decreases needle@.len() - k,
    {
        if hay[i + k] != needle[k] {
            assert(hay@.subrange(i as int, i + needle@.len())[k as int] != needle@[k as int]);
            return false;
        }
        k = k + 1;
    }
    assert(hay@.subrange(i as int, i + needle@.len()) =~= needle@);
    true
}

/// `str::contains`: whether `needle` occurs in `hay`.
pub fn chars_contain(hay: &Vec<char>, needle: &Vec<char>) -> (r: bool)
    ensures
        r == contains_str(hay@, needle@),
{
    if needle.len() > hay.len() {
        return false;
    }
    let last = hay.len() - needle.len();
    let mut i: usize = 0;
    while i <= last
        invariant
            last == hay@.len() - needle@.len(),
            needle@.len() <= hay@.len(),
            forall|j: int| 0 <= j < i ==> !occurs_at(hay@, needle@, j),
        ensures
            forall|j: int| 0 <= j <= last ==> !occurs_at(hay@, needle@, j),
        decreases last + 1 - i,
    {
        if chars_occur_at(hay, needle, i) {
            return true;
        }
        if i == last {
            break;
        }
        i = i + 1;
    }
    assert forall|j: int| !occurs_at(hay@, needle@, j) by {
        if 0 <= j <= last {
        }
    }
    false
}


pub fn digit(d: u64) -> (c: char)
    requires
        d < 10,
    ensures
        c == digit_char(d as nat),
{
    if d == 0 { '0' }
    else if d == 1 { '1' }
    else if d == 2 { '2' }
    else if d == 3 { '3' }
    else if d == 4 { '4' }
    else if d == 5 { '5' }
    else if d == 6 { '6' }
    else if d == 7 { '7' }
    else if d == 8 { '8' }
    else { '9' }
}

/// The decimal text of `n` (what `Display` prints for it).
pub fn decimal_text(n: u64) -> (r: String)
    ensures
        r@ == decimal(n as nat),
{
    let v = decimal_chars(n);
    string_of(v.as_slice())
}

fn decimal_chars(n: u64) -> (r: Vec<char>)
    ensures
        r@ == decimal(n as nat),
    decreases n,
{
    if n < 10 {
        let mut v = Vec::new();
        v.push(digit(n));
        v
    } else {
        let mut v = decimal_chars(n / 10);
        v.push(digit(n % 10));
        v
    }
}

/// The decimal text of a 128-bit `n`.
pub fn wide_decimal_text(n: u128) -> (r: String)
    ensures
        r@ == decimal(n as nat),
{
    let v = wide_decimal_chars(n);
    string_of(v.as_slice())
}

fn wide_decimal_chars(n: u128) -> (r: Vec<char>)
    ensures
        r@ == decimal(n as nat),
    decreases n,
{
    if n < 10 {
        let mut v = Vec::new();
        v.push(digit(n as u64));
        v
    } else {
        let mut v = wide_decimal_chars(n / 10);
        v.push(digit((n % 10) as u64));
        v
    }
}

/// The characters of `v` from `from` up to `to`.
pub fn slice_chars(v: &Vec<char>, from: usize, to: usize) -> (r: Vec<char>)
    requires
        from <= to <= v@.len(),
    ensures
        r@ == v@.subrange(from as int, to as int),
{
    let mut out: Vec<char> = Vec::new();
    let mut j: usize = from;
    while j < to
        invariant
            from <= j <= to,
            to <= v@.len(),
            out@ == v@.subrange(from as int, j as int),
        decreases to - j,
    {
        out.push(v[j]);
        assert(v@.subrange(from as int, j + 1) == v@.subrange(from as int, j as int).push(v@[j as int]));
        j = j + 1;
    }
    out
}

} // verus!
