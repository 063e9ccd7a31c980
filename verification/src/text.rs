//! Text primitives on which the rest of the library is built: the order in
//! which keys are kept, comparison and search on character sequences,
//! trimming, joining and decimal rendering.

use vstd::prelude::*;

verus! {

// ── Lexicographic order ──────────────────────────────────────────────

/// Lexicographic "strictly before" on sequences, given a strict order on
/// their elements: a proper prefix comes first, otherwise the first
/// differing element decides.
pub open spec fn lex_lt<A>(a: Seq<A>, b: Seq<A>, lt: spec_fn(A, A) -> bool) -> bool
    decreases a.len(),
{
    if a.len() == 0 {
        b.len() > 0
    } else if b.len() == 0 {
        false
    } else if a[0] == b[0] {
        lex_lt(a.drop_first(), b.drop_first(), lt)
    } else {
        lt(a[0], b[0])
    }
}

/// `lt` is a strict total order: irreflexive, transitive and total.
pub open spec fn strict_total_order<A>(lt: spec_fn(A, A) -> bool) -> bool {
    &&& forall|x: A| !#[trigger] lt(x, x)
    &&& forall|x: A, y: A, z: A| #[trigger] lt(x, y) && #[trigger] lt(y, z) ==> lt(x, z)
    &&& forall|x: A, y: A| x != y ==> #[trigger] lt(x, y) || #[trigger] lt(y, x)
}

/// Characters are ordered by their code points.
pub open spec fn char_order() -> spec_fn(char, char) -> bool {
    |x: char, y: char| (x as u32) < (y as u32)
}

/// The order of Rust's `String`: byte-wise comparison of UTF-8, which is the
/// code-point order extended lexicographically.
pub open spec fn str_lt(a: Seq<char>, b: Seq<char>) -> bool {
    lex_lt(a, b, char_order())
}

/// Strings ordered by `str_lt`, as an element order.
pub open spec fn str_order() -> spec_fn(Seq<char>, Seq<char>) -> bool {
    |a: Seq<char>, b: Seq<char>| str_lt(a, b)
}

/// The order of a tuple of strings: component-wise, first component first.
pub open spec fn parts_lt(a: Seq<Seq<char>>, b: Seq<Seq<char>>) -> bool {
    lex_lt(a, b, str_order())
}

pub proof fn lemma_lex_irreflexive<A>(a: Seq<A>, lt: spec_fn(A, A) -> bool)
    ensures
        !lex_lt(a, a, lt),
    decreases a.len(),
{
    if a.len() > 0 {
        lemma_lex_irreflexive(a.drop_first(), lt);
    }
}

pub proof fn lemma_lex_transitive<A>(a: Seq<A>, b: Seq<A>, c: Seq<A>, lt: spec_fn(A, A) -> bool)
    requires
        strict_total_order(lt),
        lex_lt(a, b, lt),
        lex_lt(b, c, lt),
    ensures
        lex_lt(a, c, lt),
    decreases a.len(),
{
    if a.len() > 0 && b.len() > 0 && c.len() > 0 {
        if a[0] == b[0] && b[0] == c[0] {
            lemma_lex_transitive(a.drop_first(), b.drop_first(), c.drop_first(), lt);
        } else if a[0] == b[0] {
            assert(lt(b[0], c[0]));
        } else if b[0] == c[0] {
            assert(lt(a[0], b[0]));
        } else {
            assert(lt(a[0], b[0]) && lt(b[0], c[0]));
            if a[0] == c[0] {
                assert(lt(a[0], a[0]));
            }
        }
    }
}

pub proof fn lemma_lex_total<A>(a: Seq<A>, b: Seq<A>, lt: spec_fn(A, A) -> bool)
    requires
        strict_total_order(lt),
        a != b,
    ensures
        lex_lt(a, b, lt) || lex_lt(b, a, lt),
    decreases a.len(),
{
    if a.len() == 0 {
        assert(b.len() > 0) by {
            if b.len() == 0 {
                assert(a =~= b);
            }
        }
    } else if b.len() == 0 {
    } else if a[0] == b[0] {
        assert(a.drop_first() != b.drop_first()) by {
            if a.drop_first() == b.drop_first() {
                assert(a =~= seq![a[0]] + a.drop_first());
                assert(b =~= seq![b[0]] + b.drop_first());
            }
        }
        lemma_lex_total(a.drop_first(), b.drop_first(), lt);
    } else {
        assert(lt(a[0], b[0]) || lt(b[0], a[0]));
    }
}

/// Lexicographic extension of a strict total order is a strict total order.
pub proof fn lemma_lex_strict_total<A>(lt: spec_fn(A, A) -> bool)
    requires
        strict_total_order(lt),
    ensures
        strict_total_order(|a: Seq<A>, b: Seq<A>| lex_lt(a, b, lt)),
{
    let l = |a: Seq<A>, b: Seq<A>| lex_lt(a, b, lt);
    assert forall|x: Seq<A>| !#[trigger] l(x, x) by {
        lemma_lex_irreflexive(x, lt);
    }
    assert forall|x: Seq<A>, y: Seq<A>, z: Seq<A>| #[trigger] l(x, y) && #[trigger] l(y, z) implies l(x, z) by {
        lemma_lex_transitive(x, y, z, lt);
    }
    assert forall|x: Seq<A>, y: Seq<A>| x != y implies #[trigger] l(x, y) || #[trigger] l(y, x) by {
        lemma_lex_total(x, y, lt);
    }
}

/// The code-point order on characters is a strict total order.
pub proof fn lemma_char_order_strict_total()
    ensures
        strict_total_order(char_order()),
{
    assert forall|x: char, y: char| x != y implies #[trigger] char_order()(x, y) || #[trigger] char_order()(y, x) by {
        vstd::utf8::char_u32_cast(x, x as u32);
        vstd::utf8::char_u32_cast(y, y as u32);
    }
}

/// The order on strings is a strict total order.
pub proof fn lemma_str_order_strict_total()
    ensures
        strict_total_order(str_order()),
{
    lemma_char_order_strict_total();
    lemma_lex_strict_total(char_order());
    assert(str_order() =~= (|a: Seq<char>, b: Seq<char>| lex_lt(a, b, char_order())));
}


// ── Character access ─────────────────────────────────────────────────

/// The characters of a string, in order.
pub fn chars_of(s: &str) -> (v: Vec<char>)
    ensures
        v@ == s@,
{
    let n = s.unicode_len();
    let mut v: Vec<char> = Vec::new();
    let mut i: usize = 0;
    while i < n
        invariant
            n == s@.len(),
            i <= n,
            v@ == s@.subrange(0, i as int),
        decreases n - i,
    {
        v.push(s.get_char(i));
        i = i + 1;
    }
    assert(v@ =~= s@);
    v
}

/// Appends one character to a string (std `String::push`).
#[verifier::external_body]
pub fn push_char(s: &mut String, c: char)
    ensures
        final(s)@ == old(s)@.push(c),
{
    s.push(c);
}

/// Removes the last character of a string, if any (std `String::pop`).
#[verifier::external_body]
pub fn pop_char(s: &mut String) -> (r: Option<char>)
    ensures
        old(s)@.len() == 0 ==> r is None && final(s)@ == old(s)@,
        old(s)@.len() > 0 ==> r == Some(old(s)@.last()) && final(s)@ == old(s)@.drop_last(),
{
    s.pop()
}

/// Empties a string (std `String::clear`).
#[verifier::external_body]
pub fn clear_text(s: &mut String)
    ensures
        final(s)@ == Seq::<char>::empty(),
{
    s.clear();
}

/// A string holding the given characters.
pub fn string_of(v: &Vec<char>) -> (s: String)
    ensures
        s@ == v@,
{
    let mut s = String::new();
    let mut i: usize = 0;
    while i < v.len()
        invariant
            i <= v.len(),
            s@ == v@.subrange(0, i as int),
        decreases v.len() - i,
    {
        push_char(&mut s, v[i]);
        i = i + 1;
    }
    assert(s@ =~= v@);
    s
}

/// A fresh string with the contents of a string slice.
pub fn owned(s: &str) -> (r: String)
    ensures
        r@ == s@,
{
    let mut r = String::new();
    r.append(s);
    r
}

/// `a` followed by `b`.
pub fn concat2(a: &str, b: &str) -> (r: String)
    ensures
        r@ == a@ + b@,
{
    let mut r = owned(a);
    r.append(b);
    r
}

/// The code point of a character.
pub fn char_code(c: char) -> (r: u32)
    ensures
        r == c as u32,
{
    proof {
        vstd::utf8::char_is_scalar(c);
    }
    c as u32
}

/// A copy of a list of strings.
pub fn clone_texts(v: &Vec<String>) -> (r: Vec<String>)
    ensures
        r@ == v@,
{
    let mut r: Vec<String> = Vec::new();
    let mut i: usize = 0;
    while i < v.len()
        invariant
            i <= v.len(),
            r@ == v@.subrange(0, i as int),
        decreases v.len() - i,
    {
        r.push(v[i].clone());
        i = i + 1;
    }
    assert(r@ =~= v@);
    r
}

/// A copy of a list of string pairs.
pub fn clone_pairs(v: &Vec<(String, String)>) -> (r: Vec<(String, String)>)
    ensures
        r@ == v@,
{
    let mut r: Vec<(String, String)> = Vec::new();
    let mut i: usize = 0;
    while i < v.len()
        invariant
            i <= v.len(),
            r@ == v@.subrange(0, i as int),
        decreases v.len() - i,
    {
        r.push((v[i].0.clone(), v[i].1.clone()));
        i = i + 1;
    }
    assert(r@ =~= v@);
    r
}

/// A copy of an optional string.
pub fn clone_opt(o: &Option<String>) -> (r: Option<String>)
    ensures
        r == *o,
{
    match o {
        Some(s) => Some(s.clone()),
        None => None,
    }
}

// ── Comparison and search ────────────────────────────────────────────

/// Whether two strings hold the same characters.
pub fn text_eq(a: &str, b: &str) -> (r: bool)
    ensures
        r == (a@ == b@),
{
    let x = chars_of(a);
    let y = chars_of(b);
    if x.len() != y.len() {
        return false;
    }
    let mut i: usize = 0;
    while i < x.len()
        invariant
            x@ == a@,
            y@ == b@,
            x.len() == y.len(),
            i <= x.len(),
            x@.subrange(0, i as int) == y@.subrange(0, i as int),
        decreases x.len() - i,
    {
        if x[i] != y[i] {
            assert(x@[i as int] != y@[i as int]);
            return false;
        }
        assert(x@.subrange(0, i + 1) =~= x@.subrange(0, i as int).push(x@[i as int]));
        assert(y@.subrange(0, i + 1) =~= y@.subrange(0, i as int).push(y@[i as int]));
        i = i + 1;
    }
    assert(x@ =~= x@.subrange(0, i as int));
    assert(y@ =~= y@.subrange(0, i as int));
    true
}

/// Whether `a` comes strictly before `b` in the order of Rust strings.
pub fn text_less(a: &str, b: &str) -> (r: bool)
    ensures
        r == str_lt(a@, b@),
{
    let x = chars_of(a);
    let y = chars_of(b);
    let mut i: usize = 0;
    assert(x@.skip(0) =~= x@);
    assert(y@.skip(0) =~= y@);
    while i < x.len() && i < y.len()
        invariant
            x@ == a@,
            y@ == b@,
            i <= x.len(),
            i <= y.len(),
            str_lt(a@, b@) == str_lt(x@.skip(i as int), y@.skip(i as int)),
        decreases x.len() - i,
    {
        let c = x[i];
        let d = y[i];
        if c != d {
            return char_code(c) < char_code(d);
        }
        assert(x@.skip(i as int).drop_first() =~= x@.skip(i + 1));
        assert(y@.skip(i as int).drop_first() =~= y@.skip(i + 1));
        i = i + 1;
    }
    i < y.len()
}

/// `p` is a prefix of `t`.
pub open spec fn has_prefix(t: Seq<char>, p: Seq<char>) -> bool {
    p.len() <= t.len() && t.subrange(0, p.len() as int) == p
}

/// `p` occurs in `t` as a contiguous piece.
pub open spec fn has_substring(t: Seq<char>, p: Seq<char>) -> bool {
    exists|i: int| 0 <= i && i + p.len() <= t.len() && #[trigger] t.subrange(i, i + p.len()) == p
}

/// Whether the characters of `p` stand in `t` from position `at` on.
fn occurs_at(t: &Vec<char>, p: &Vec<char>, at: usize) -> (r: bool)
    requires
        at + p.len() <= t.len(),
    ensures
        r == (t@.subrange(at as int, at + p.len()) == p@),
{
    let mut j: usize = 0;
    while j < p.len()
        invariant
            at + p.len() <= t.len(),
            j <= p.len(),
            t@.subrange(at as int, at + j) == p@.subrange(0, j as int),
        decreases p.len() - j,
    {
        if t[at + j] != p[j] {
            assert(t@.subrange(at as int, at + p.len())[j as int] != p@[j as int]);
            return false;
        }
        assert(t@.subrange(at as int, at + j + 1) =~= t@.subrange(at as int, at + j).push(t@[at + j]));
        assert(p@.subrange(0, j + 1) =~= p@.subrange(0, j as int).push(p@[j as int]));
        j = j + 1;
    }
    assert(p@.subrange(0, j as int) =~= p@);
    true
}

/// Whether `t` starts with `p` (std `str::starts_with` on a string pattern).
pub fn starts_with(t: &str, p: &str) -> (r: bool)
    ensures
        r == has_prefix(t@, p@),
{
    let x = chars_of(t);
    let y = chars_of(p);
    if y.len() > x.len() {
        return false;
    }
    occurs_at(&x, &y, 0)
}

/// Whether `p` occurs in `t` (std `str::contains` on a string pattern).
pub fn contains_text(t: &str, p: &str) -> (r: bool)
    ensures
        r == has_substring(t@, p@),
{
    let x = chars_of(t);
    let y = chars_of(p);
    if y.len() > x.len() {
        return false;
    }
    let last = x.len() - y.len();
    let mut i: usize = 0;
    while i < last
        invariant
            x@ == t@,
            y@ == p@,
            i <= last,
            last + y.len() == x.len(),
            forall|k: int| 0 <= k < i ==> #[trigger] x@.subrange(k, k + y.len()) != y@,
        decreases last - i,
    {
        if occurs_at(&x, &y, i) {
            return true;
        }
        i = i + 1;
    }
    if occurs_at(&x, &y, last) {
        return true;
    }
    assert forall|k: int| 0 <= k && k + p@.len() <= t@.len() implies #[trigger] t@.subrange(k, k + p@.len()) != p@ by {
        if k < last {
            assert(x@.subrange(k, k + y.len()) != y@);
        }
    }
    false
}


// ── Trimming and case ────────────────────────────────────────────────

/// The Unicode `White_Space` property, which `char::is_whitespace` tests.
pub open spec fn is_white_space(c: char) -> bool {
    let u = c as u32;
    ||| 0x9 <= u <= 0xD
    ||| u == 0x20
    ||| u == 0x85
    ||| u == 0xA0
    ||| u == 0x1680
    ||| 0x2000 <= u <= 0x200A
    ||| u == 0x2028
    ||| u == 0x2029
    ||| u == 0x202F
    ||| u == 0x205F
    ||| u == 0x3000
}

/// Whether a character has the `White_Space` property.
pub fn white_space(c: char) -> (r: bool)
    ensures
        r == is_white_space(c),
{
    let u = char_code(c);
    (0x9 <= u && u <= 0xD) || u == 0x20 || u == 0x85 || u == 0xA0 || u == 0x1680 || (0x2000 <= u
        && u <= 0x200A) || u == 0x2028 || u == 0x2029 || u == 0x202F || u == 0x205F || u == 0x3000
}

/// `s` without its leading white space.
pub open spec fn trim_start(s: Seq<char>) -> Seq<char>
    decreases s.len(),
{
    if s.len() > 0 && is_white_space(s[0]) {
        trim_start(s.drop_first())
    } else {
        s
    }
}

/// `s` without its trailing white space.
pub open spec fn trim_end(s: Seq<char>) -> Seq<char>
    decreases s.len(),
{
    if s.len() > 0 && is_white_space(s.last()) {
        trim_end(s.drop_last())
    } else {
        s
    }
}

/// `s` without leading and trailing white space (std `str::trim`).
pub open spec fn trimmed(s: Seq<char>) -> Seq<char> {
    trim_end(trim_start(s))
}

/// The text of `s` without leading and trailing white space.
pub fn trim_text(s: &str) -> (r: String)
    ensures
        r@ == trimmed(s@),
{
    let v = chars_of(s);
    let n = v.len();
    let mut i: usize = 0;
    assert(v@.subrange(0, n as int) =~= v@);
    while i < n && white_space(v[i])
        invariant
            v@ == s@,
            n == v.len(),
            i <= n,
            trim_start(s@) == trim_start(v@.subrange(i as int, n as int)),
        decreases n - i,
    {
        assert(v@.subrange(i as int, n as int).drop_first() =~= v@.subrange(i + 1, n as int));
        i = i + 1;
    }
    let mut j: usize = n;
    while j > i && white_space(v[j - 1])
        invariant
            v@ == s@,
            n == v.len(),
            i <= j <= n,
            trimmed(s@) == trim_end(v@.subrange(i as int, j as int)),
        decreases j,
    {
        assert(v@.subrange(i as int, j as int).drop_last() =~= v@.subrange(i as int, j - 1));
        j = j - 1;
    }
    let mut out: Vec<char> = Vec::new();
    let mut k: usize = i;
    while k < j
        invariant
            i <= k <= j <= n,
            n == v.len(),
            out@ == v@.subrange(i as int, k as int),
        decreases j - k,
    {
        out.push(v[k]);
        assert(v@.subrange(i as int, k + 1) =~= v@.subrange(i as int, k as int).push(v@[k as int]));
        k = k + 1;
    }
    string_of(&out)
}

/// The result of std `str::to_lowercase` on a text: the Unicode lowercase
/// mapping, with its context rule for a final capital sigma.
pub uninterp spec fn lowercase(s: Seq<char>) -> Seq<char>;

/// The lowercase form of a text, by std `str::to_lowercase`. The contract
/// names the result and says nothing of its characters.
#[verifier::external_body]
pub fn to_lowercase(s: &str) -> (r: String)
    ensures
        r@ == lowercase(s@),
{
    s.to_lowercase()
}

// ── Joining ──────────────────────────────────────────────────────────

/// The pieces of `list` with `sep` between each two neighbours.
pub open spec fn join_spec(list: Seq<Seq<char>>, sep: Seq<char>) -> Seq<char>
    decreases list.len(),
{
    if list.len() == 0 {
        Seq::empty()
    } else if list.len() == 1 {
        list[0]
    } else {
        join_spec(list.drop_last(), sep) + sep + list.last()
    }
}

/// The texts of a list of strings.
pub open spec fn texts(list: Seq<String>) -> Seq<Seq<char>> {
    list.map_values(|s: String| s@)
}

/// The strings of `list` joined by `sep` (std `[String]::join`).
pub fn join_texts(list: &Vec<String>, sep: &str) -> (r: String)
    ensures
        r@ == join_spec(texts(list@), sep@),
{
    let mut r = String::new();
    let mut i: usize = 0;
    while i < list.len()
        invariant
            i <= list.len(),
            r@ == join_spec(texts(list@).subrange(0, i as int), sep@),
        decreases list.len() - i,
    {
        proof {
            let t = texts(list@).subrange(0, i + 1);
            assert(t.drop_last() =~= texts(list@).subrange(0, i as int));
            assert(t.last() == list@[i as int]@);
        }
        if i > 0 {
            r.append(sep);
        }
        r.append(list[i].as_str());
        i = i + 1;
    }
    assert(texts(list@).subrange(0, i as int) =~= texts(list@));
    r
}

// ── Decimal rendering ────────────────────────────────────────────────

/// The character of a decimal digit.
pub open spec fn digit_char(d: nat) -> char {
    ((d + 48) as u32) as char
}

/// The decimal digits of `n`, most significant first, without leading zeros.
pub open spec fn decimal(n: nat) -> Seq<char>
    decreases n,
{
    if n < 10 {
        seq![digit_char(n)]
    } else {
        decimal(n / 10).push(digit_char(n % 10))
    }
}

/// The text of a signed number: a minus sign before the digits of a negative one.
pub open spec fn signed_decimal(n: int) -> Seq<char> {
    if n < 0 {
        seq!['-'] + decimal((-n) as nat)
    } else {
        decimal(n as nat)
    }
}

fn digit(d: u64) -> (c: char)
    requires
        d < 10,
    ensures
        c == digit_char(d as nat),
{
    match d {
        0 => '0',
        1 => '1',
        2 => '2',
        3 => '3',
        4 => '4',
        5 => '5',
        6 => '6',
        7 => '7',
        8 => '8',
        _ => '9',
    }
}

/// The decimal text of an unsigned number (std `u64::to_string`).
pub fn u64_text(n: u64) -> (s: String)
    ensures
        s@ == decimal(n as nat),
    decreases n,
{
    if n < 10 {
        let mut s = String::new();
        push_char(&mut s, digit(n));
        s
    } else {
        let mut s = u64_text(n / 10);
        push_char(&mut s, digit(n % 10));
        s
    }
}

/// The decimal text of a count (std `usize::to_string`).
pub fn usize_text(n: usize) -> (s: String)
    ensures
        s@ == decimal(n as nat),
{
    u64_text(n as u64)
}

/// The decimal text of a signed number (std `i64::to_string`).
pub fn i64_text(n: i64) -> (s: String)
    ensures
        s@ == signed_decimal(n as int),
{
    if n < 0 {
        let m: u64 = ((-(n + 1)) as u64) + 1;
        let mut s = String::new();
        push_char(&mut s, '-');
        s.append(u64_text(m).as_str());
        s
    } else {
        u64_text(n as u64)
    }
}

/// The text of a truth value (std `bool::to_string`).
pub fn bool_text(b: bool) -> (s: String)
    ensures
        s@ == (if b { "true"@ } else { "false"@ }),
{
    if b {
        owned("true")
    } else {
        owned("false")
    }
}

} // verus!
