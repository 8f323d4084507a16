//! Character-level helpers shared by the parser and the rules.
use vstd::prelude::*;
use vstd::string::*;

verus! {

/// The characters of `s`, in order.
pub fn chars_of(s: &str) -> (v: Vec<char>)
    ensures
        v@ == s@,
{
    let n = s.unicode_len();
    let mut v: Vec<char> = Vec::new();
    let mut i: usize = 0;
    while i < n
        invariant
            n == s@.len(),
            i <= n,
            v@ == s@.subrange(0, i as int),
        decreases n - i,
    {
        v.push(s.get_char(i));
        i = i + 1;
    }
    v
}

/// Whether two strings hold the same characters.
pub fn str_eq(a: &str, b: &str) -> (r: bool)
    ensures
        r == (a@ == b@),
{
    let x = chars_of(a);
    let y = chars_of(b);
    if x.len() != y.len() {
        return false;
    }
    let mut i: usize = 0;
    while i < x.len()
        invariant
            x@ == a@,
            y@ == b@,
            x.len() == y.len(),
            i <= x.len(),
            forall|j: int| 0 <= j < i ==> x@[j] == y@[j],
        decreases x.len() - i,
    {
        if x[i] != y[i] {
            return false;
        }
        i = i + 1;
    }
    assert(x@ =~= y@);
    true
}

/// A new `String` holding the characters of `a` followed by those of `b`.
pub fn concat2(a: &str, b: &str) -> (r: String)
    ensures
        r@ == a@ + b@,
{
    let mut r = String::from_str(a);
    r.append(b);
    r
}

/// The ASCII lowercase of a character (other characters are unchanged).
pub open spec fn ascii_lower(c: char) -> char {
    if 'A' <= c && c <= 'Z' {
        ((c as u32) + 32) as char
    } else {
        c
    }
}

/// Equality up to ASCII case.
pub open spec fn spec_eq_ignore_ascii_case(a: Seq<char>, b: Seq<char>) -> bool {
    a.len() == b.len() && forall|i: int| 0 <= i < a.len() ==> ascii_lower(#[trigger] a[i]) == ascii_lower(b[i])
}

/// Two texts equal up to ASCII case have the same ASCII lowercase.
pub proof fn lemma_ascii_lowercase_ignores_case(a: Seq<char>, b: Seq<char>)
    requires
        spec_eq_ignore_ascii_case(a, b),
    ensures
        ascii_lowercase(a) == ascii_lowercase(b),
{
    assert(ascii_lowercase(a) =~= ascii_lowercase(b));
}

/// Lowercasing ASCII text gives ASCII text, and lowercasing it again
/// changes nothing.
pub proof fn lemma_ascii_lowercase_idempotent(s: Seq<char>)
    requires
        is_ascii_text(s),
    ensures
        is_ascii_text(ascii_lowercase(s)),
        ascii_lowercase(ascii_lowercase(s)) == ascii_lowercase(s),
{
    assert(ascii_lowercase(ascii_lowercase(s)) =~= ascii_lowercase(s));
}

pub fn lower_char(c: char) -> (r: char)
    ensures
        r == ascii_lower(c),
{
    if 'A' <= c && c <= 'Z' {
        let u = (c as u32) + 32;
        assert(u <= 0x7f);
        char_from_ascii(u)
    } else {
        c
    }
}

fn char_from_ascii(u: u32) -> (c: char)
    requires
        u <= 0x7f,
    ensures
        c == u as char,
{
    let b = u as u8;
    b as char
}

/// Whether `a` and `b` are equal up to ASCII case.
pub fn eq_ignore_ascii_case(a: &str, b: &str) -> (r: bool)
    ensures
        r == spec_eq_ignore_ascii_case(a@, b@),
{
    let x = chars_of(a);
    let y = chars_of(b);
    if x.len() != y.len() {
        return false;
    }
    let mut i: usize = 0;
    while i < x.len()
        invariant
            x@ == a@,
            y@ == b@,
            x.len() == y.len(),
            i <= x.len(),
            forall|j: int| 0 <= j < i ==> ascii_lower(#[trigger] x@[j]) == ascii_lower(y@[j]),
        decreases x.len() - i,
    {
        if lower_char(x[i]) != lower_char(y[i]) {
            return false;
        }
        i = i + 1;
    }
    true
}

/// Whether `s` ends with `suffix`.
pub open spec fn spec_ends_with(s: Seq<char>, suffix: Seq<char>) -> bool {
    suffix.len() <= s.len() && s.subrange(s.len() - suffix.len(), s.len() as int) == suffix
}

/// Whether `s` starts with `prefix`.
pub open spec fn spec_starts_with(s: Seq<char>, prefix: Seq<char>) -> bool {
    prefix.len() <= s.len() && s.subrange(0, prefix.len() as int) == prefix
}

/// Whether `s` ends with `suffix`.
pub fn ends_with(s: &str, suffix: &str) -> (r: bool)
    ensures
        r == spec_ends_with(s@, suffix@),
{
    let x = chars_of(s);
    let y = chars_of(suffix);
    if y.len() > x.len() {
        return false;
    }
    let off = x.len() - y.len();
    let mut i: usize = 0;
    while i < y.len()
        invariant
            x@ == s@,
            y@ == suffix@,
            off == x.len() - y.len(),
            i <= y.len(),
            forall|j: int| 0 <= j < i ==> x@[off + j] == y@[j],
        decreases y.len() - i,
    {
        if x[off + i] != y[i] {
            assert(s@.subrange(s@.len() - suffix@.len(), s@.len() as int)[i as int] != suffix@[i as int]);
            return false;
        }
        i = i + 1;
    }
    assert(s@.subrange(s@.len() - suffix@.len(), s@.len() as int) =~= suffix@);
    true
}

/// Whether `s` starts with `prefix`.
pub fn starts_with(s: &str, prefix: &str) -> (r: bool)
    ensures
        r == spec_starts_with(s@, prefix@),
{
    let x = chars_of(s);
    let y = chars_of(prefix);
    if y.len() > x.len() {
        return false;
    }
    let mut i: usize = 0;
    while i < y.len()
        invariant
            x@ == s@,
            y@ == prefix@,
            y.len() <= x.len(),
            i <= y.len(),
            forall|j: int| 0 <= j < i ==> x@[j] == y@[j],
        decreases y.len() - i,
    {
        if x[i] != y[i] {
            assert(s@.subrange(0, prefix@.len() as int)[i as int] != prefix@[i as int]);
            return false;
        }
        i = i + 1;
    }
    assert(s@.subrange(0, prefix@.len() as int) =~= prefix@);
    true
}

/// A new string: `a` then `b` then `c`.
pub fn join3(a: &str, b: &str, c: &str) -> (r: String)
    ensures
        r@ == a@ + b@ + c@,
{
    let mut r = String::from_str(a);
    r.append(b);
    r.append(c);
    r
}

/// A new string: `a`, `b`, `c`, `d`, `e` in order.
pub fn join5(a: &str, b: &str, c: &str, d: &str, e: &str) -> (r: String)
    ensures
        r@ == a@ + b@ + c@ + d@ + e@,
{
    let mut r = String::from_str(a);
    r.append(b);
    r.append(c);
    r.append(d);
    r.append(e);
    r
}

/// A new string: `a` to `g` in order.
pub fn join7(a: &str, b: &str, c: &str, d: &str, e: &str, f: &str, g: &str) -> (r: String)
    ensures
        r@ == a@ + b@ + c@ + d@ + e@ + f@ + g@,
{
    let mut r = join5(a, b, c, d, e);
    r.append(f);
    r.append(g);
    r
}

/// The views of a list of strings.
pub open spec fn strings_view(v: Seq<String>) -> Seq<Seq<char>> {
    v.map_values(|s: String| s@)
}

/// The strings of `v` joined by `sep`.
pub open spec fn spec_join(v: Seq<Seq<char>>, sep: Seq<char>) -> Seq<char>
    decreases v.len(),
{
    if v.len() == 0 {
        Seq::empty()
    } else if v.len() == 1 {
        v[0]
    } else {
        spec_join(v.drop_last(), sep) + sep + v.last()
    }
}

/// The strings of `v` joined by `sep`.
pub fn join_strings(v: &Vec<String>, sep: &str) -> (r: String)
    ensures
        r@ == spec_join(strings_view(v@), sep@),
{
    let mut r = String::new();
    let mut i: usize = 0;
    while i < v.len()
        invariant
            i <= v.len(),
            r@ == spec_join(strings_view(v@).take(i as int), sep@),
        decreases v.len() - i,
    {
        proof {
            assert(strings_view(v@).take(i + 1).drop_last() =~= strings_view(v@).take(i as int));
        }
        if i > 0 {
            r.append(sep);
        } else {
            assert(strings_view(v@).take(1) =~= seq![v@[0]@]);
        }
        r.append(v[i].as_str());
        i = i + 1;
    }
    assert(strings_view(v@).take(v@.len() as int) =~= strings_view(v@));
    r
}

/// Lexicographic order on strings by code point (the order of `str`'s `Ord`).
pub open spec fn lex_lt(a: Seq<char>, b: Seq<char>) -> bool
    decreases a.len(),
{
    if a.len() == 0 {
        b.len() > 0
    } else if b.len() == 0 {
        false
    } else if a[0] != b[0] {
        a[0] < b[0]
    } else {
        lex_lt(a.drop_first(), b.drop_first())
    }
}

/// Whether `a` sorts strictly before `b`.
pub fn str_lt(a: &str, b: &str) -> (r: bool)
    ensures
        r == lex_lt(a@, b@),
{
    let x = chars_of(a);
    let y = chars_of(b);
    let mut i: usize = 0;
    proof {
        assert(a@.skip(0) =~= a@);
        assert(b@.skip(0) =~= b@);
    }
    while i < x.len() && i < y.len()
        invariant
            x@ == a@,
            y@ == b@,
            i <= x.len(),
            i <= y.len(),
            lex_lt(a@, b@) == lex_lt(a@.skip(i as int), b@.skip(i as int)),
        decreases x.len() - i,
    {
        proof {
            assert(a@.skip(i as int)[0] == x@[i as int]);
            assert(b@.skip(i as int)[0] == y@[i as int]);
        }
        if x[i] != y[i] {
            return x[i] < y[i];
        }
        proof {
            assert(a@.skip(i as int).drop_first() =~= a@.skip(i + 1));
            assert(b@.skip(i as int).drop_first() =~= b@.skip(i + 1));
        }
        i = i + 1;
    }
    proof {
        assert(a@.skip(i as int).len() == a@.len() - i);
    }
    i == x.len() && i < y.len()
}

/// `x` inserted into `v` before the first element that sorts after it.
pub open spec fn sorted_insert(v: Seq<Seq<char>>, x: Seq<char>) -> Seq<Seq<char>>
    decreases v.len(),
{
    if v.len() == 0 {
        seq![x]
    } else if lex_lt(x, v[0]) {
        seq![x] + v
    } else {
        seq![v[0]] + sorted_insert(v.drop_first(), x)
    }
}

/// The strings of `v` in ascending order (equal strings keep their order).
pub open spec fn spec_sort_strings(v: Seq<Seq<char>>) -> Seq<Seq<char>>
    decreases v.len(),
{
    if v.len() == 0 {
        v
    } else {
        sorted_insert(spec_sort_strings(v.drop_last()), v.last())
    }
}

proof fn lemma_sorted_insert_at(v: Seq<Seq<char>>, x: Seq<char>, j: int)
    requires
        0 <= j <= v.len(),
        forall|k: int| 0 <= k < j ==> !lex_lt(x, #[trigger] v[k]),
        j < v.len() ==> lex_lt(x, v[j]),
    ensures
        sorted_insert(v, x) == v.insert(j, x),
    decreases v.len(),
{
    if v.len() == 0 {
        assert(v.insert(j, x) =~= seq![x]);
    } else if j == 0 {
        assert(v.insert(0, x) =~= seq![x] + v);
    } else {
        let t = v.drop_first();
        assert forall|k: int| 0 <= k < j - 1 implies !lex_lt(x, #[trigger] t[k]) by {
            assert(t[k] == v[k + 1]);
        }
        lemma_sorted_insert_at(t, x, j - 1);
        assert(v.insert(j, x) =~= seq![v[0]] + t.insert(j - 1, x));
    }
}

/// `s` is in ascending order (equal strings may repeat).
pub open spec fn sorted_strings(s: Seq<Seq<char>>) -> bool {
    forall|i: int, j: int| 0 <= i < j < s.len() ==> !lex_lt(#[trigger] s[j], #[trigger] s[i])
}

/// `s` is in strictly ascending order: sorted, with no string twice.
pub open spec fn strictly_sorted_strings(s: Seq<Seq<char>>) -> bool {
    forall|i: int, j: int| 0 <= i < j < s.len() ==> lex_lt(#[trigger] s[i], #[trigger] s[j])
}

/// No string sorts before itself.
pub proof fn lemma_lex_lt_irreflexive(a: Seq<char>)
    ensures
        !lex_lt(a, a),
    decreases a.len(),
{
    if a.len() > 0 {
        lemma_lex_lt_irreflexive(a.drop_first());
    }
}

/// Of two different strings, exactly one sorts before the other.
pub proof fn lemma_lex_lt_total(a: Seq<char>, b: Seq<char>)
    ensures
        a != b ==> lex_lt(a, b) || lex_lt(b, a),
        !(lex_lt(a, b) && lex_lt(b, a)),
    decreases a.len(),
{
    if a.len() > 0 && b.len() > 0 && a[0] == b[0] {
        lemma_lex_lt_total(a.drop_first(), b.drop_first());
        if a.drop_first() == b.drop_first() {
            assert(a =~= seq![a[0]] + a.drop_first());
            assert(b =~= seq![b[0]] + b.drop_first());
        }
    }
    if a.len() == 0 && b.len() == 0 {
        assert(a =~= b);
    }
}

/// Sorting before is transitive.
pub proof fn lemma_lex_lt_transitive(a: Seq<char>, b: Seq<char>, c: Seq<char>)
    requires
        lex_lt(a, b),
        lex_lt(b, c),
    ensures
        lex_lt(a, c),
    decreases a.len(),
{
    if a.len() > 0 && a[0] == b[0] && b[0] == c[0] {
        lemma_lex_lt_transitive(a.drop_first(), b.drop_first(), c.drop_first());
    }
}

/// Inserting into a sorted sequence keeps it sorted, adds one element and
/// adds exactly `x` to what it contains.
proof fn lemma_sorted_insert(v: Seq<Seq<char>>, x: Seq<char>)
    requires
        sorted_strings(v),
    ensures
        sorted_strings(sorted_insert(v, x)),
        sorted_insert(v, x).len() == v.len() + 1,
        forall|y: Seq<char>| #[trigger] sorted_insert(v, x).contains(y) <==> (v.contains(y) || y == x),
    decreases v.len(),
{
    let r = sorted_insert(v, x);
    if v.len() == 0 {
        assert(r =~= seq![x]);
        assert forall|y: Seq<char>| #[trigger] r.contains(y) <==> (v.contains(y) || y == x) by {
            if y == x {
                assert(r[0] == x);
            }
        }
    } else if lex_lt(x, v[0]) {
        assert(r =~= seq![x] + v);
        assert forall|k: int| 0 <= k < v.len() implies !lex_lt(#[trigger] v[k], x) by {
            if lex_lt(v[k], x) {
                lemma_lex_lt_transitive(v[k], x, v[0]);
                lemma_lex_lt_irreflexive(v[0]);
            }
        }
        assert forall|i: int, j: int| 0 <= i < j < r.len() implies !lex_lt(#[trigger] r[j], #[trigger] r[i]) by {
            if i > 0 {
                assert(r[i] == v[i - 1] && r[j] == v[j - 1]);
            } else {
                assert(r[j] == v[j - 1]);
            }
        }
        assert forall|y: Seq<char>| #[trigger] r.contains(y) <==> (v.contains(y) || y == x) by {
            if v.contains(y) {
                let k = choose|k: int| 0 <= k < v.len() && v[k] == y;
                assert(r[k + 1] == y);
            }
            if y == x {
                assert(r[0] == x);
            }
            if r.contains(y) {
                let k = choose|k: int| 0 <= k < r.len() && r[k] == y;
                if k > 0 {
                    assert(v[k - 1] == y);
                }
            }
        }
    } else {
        let t = v.drop_first();
        assert forall|i: int, j: int| 0 <= i < j < t.len() implies !lex_lt(#[trigger] t[j], #[trigger] t[i]) by {
            assert(t[i] == v[i + 1] && t[j] == v[j + 1]);
        }
        lemma_sorted_insert(t, x);
        let rest = sorted_insert(t, x);
        assert(r =~= seq![v[0]] + rest);
        assert forall|k: int| 0 <= k < rest.len() implies !lex_lt(#[trigger] rest[k], v[0]) by {
            assert(rest.contains(rest[k]));
            if rest[k] != x {
                let m = choose|m: int| 0 <= m < t.len() && t[m] == rest[k];
                assert(v[m + 1] == rest[k]);
            }
        }
        assert forall|i: int, j: int| 0 <= i < j < r.len() implies !lex_lt(#[trigger] r[j], #[trigger] r[i]) by {
            if i > 0 {
                assert(r[i] == rest[i - 1] && r[j] == rest[j - 1]);
            } else {
                assert(r[j] == rest[j - 1]);
            }
        }
        assert forall|y: Seq<char>| #[trigger] r.contains(y) <==> (v.contains(y) || y == x) by {
            if v.contains(y) {
                let k = choose|k: int| 0 <= k < v.len() && v[k] == y;
                if k == 0 {
                    assert(r[0] == y);
                } else {
                    assert(t[k - 1] == y);
                    assert(rest.contains(y));
                    let m = choose|m: int| 0 <= m < rest.len() && rest[m] == y;
                    assert(r[m + 1] == y);
                }
            }
            if y == x {
                assert(rest.contains(x));
                let m = choose|m: int| 0 <= m < rest.len() && rest[m] == x;
                assert(r[m + 1] == x);
            }
            if r.contains(y) {
                let k = choose|k: int| 0 <= k < r.len() && r[k] == y;
                if k == 0 {
                    assert(v[0] == y);
                } else {
                    assert(rest[k - 1] == y);
                    assert(rest.contains(y));
                    if y != x {
                        let m = choose|m: int| 0 <= m < t.len() && t[m] == y;
                        assert(v[m + 1] == y);
                    }
                }
            }
        }
    }
}

/// Sorting gives a sorted sequence of the same length with the same
/// strings.
pub proof fn lemma_sort_strings(v: Seq<Seq<char>>)
    ensures
        sorted_strings(spec_sort_strings(v)),
        spec_sort_strings(v).len() == v.len(),
        forall|y: Seq<char>| #[trigger] spec_sort_strings(v).contains(y) <==> v.contains(y),
    decreases v.len(),
{
    if v.len() > 0 {
        lemma_sort_strings(v.drop_last());
        lemma_sorted_insert(spec_sort_strings(v.drop_last()), v.last());
        assert forall|y: Seq<char>| #[trigger] spec_sort_strings(v).contains(y) <==> v.contains(y) by {
            if v.contains(y) {
                let k = choose|k: int| 0 <= k < v.len() && v[k] == y;
                if k < v.len() - 1 {
                    assert(v.drop_last()[k] == y);
                }
            }
            if v.drop_last().contains(y) {
                let k = choose|k: int| 0 <= k < v.drop_last().len() && v.drop_last()[k] == y;
                assert(v[k] == y);
            }
        }
    }
}

/// The strings of `v`, sorted.
pub fn sort_strings(v: Vec<String>) -> (r: Vec<String>)
    ensures
        strings_view(r@) == spec_sort_strings(strings_view(v@)),
{
    let mut r: Vec<String> = Vec::new();
    let mut rest = v;
    let ghost all = strings_view(rest@);
    let ghost mut i: int = 0;
    proof {
        assert(strings_view(r@) =~= spec_sort_strings(all.take(0)));
    }
    while rest.len() > 0
        invariant
            0 <= i <= all.len(),
            rest@.len() == all.len() - i,
            strings_view(rest@) == all.subrange(i, all.len() as int),
            strings_view(r@) == spec_sort_strings(all.take(i)),
        decreases rest.len(),
    {
        let ghost before = rest@;
        proof {
            assert(strings_view(before)[0] == all.subrange(i, all.len() as int)[0]);
        }
        let x = rest.remove(0);
        proof {
            assert(x@ == all[i]);
            assert forall|k: int| 0 <= k < rest@.len() implies #[trigger] strings_view(rest@)[k] == all.subrange(i + 1, all.len() as int)[k] by {
                assert(rest@[k] == before[k + 1]);
                assert(strings_view(before)[k + 1] == all.subrange(i, all.len() as int)[k + 1]);
            }
            assert(strings_view(rest@) =~= all.subrange(i + 1, all.len() as int));
            assert(all.take(i + 1).drop_last() =~= all.take(i));
        }
        let mut j: usize = 0;
        while j < r.len() && !str_lt(x.as_str(), r[j].as_str())
            invariant
                j <= r.len(),
                forall|k: int| 0 <= k < j ==> !lex_lt(x@, #[trigger] strings_view(r@)[k]),
            decreases r.len() - j,
        {
            j = j + 1;
        }
        proof {
            lemma_sorted_insert_at(strings_view(r@), x@, j as int);
            assert(strings_view(r@.insert(j as int, x)) =~= strings_view(r@).insert(j as int, x@));
        }
        r.insert(j, x);
        proof {
            i = i + 1;
        }
    }
    proof {
        assert(all.take(all.len() as int) =~= all);
    }
    r
}

/// `String::push`: appends one character.
#[verifier::external_body]
pub fn push_char(s: &mut String, c: char)
    ensures
        final(s)@ == old(s)@.push(c),
{
    s.push(c);
}

/// What `str::to_lowercase` returns for a string (Unicode lowercase mapping).
pub uninterp spec fn std_to_lowercase(s: Seq<char>) -> Seq<char>;

/// Whether every character of `s` is ASCII.
pub open spec fn is_ascii_text(s: Seq<char>) -> bool {
    forall|i: int| 0 <= i < s.len() ==> (#[trigger] s[i] as u32) < 128
}

/// `c` with `a`..`z` mapped to `A`..`Z`.
pub open spec fn ascii_upper(c: char) -> char {
    if 'a' <= c && c <= 'z' {
        ((c as u32) - 32) as char
    } else {
        c
    }
}

/// `s` with its ASCII letters lowercased.
pub open spec fn ascii_lowercase(s: Seq<char>) -> Seq<char> {
    Seq::new(s.len(), |i: int| ascii_lower(s[i]))
}

/// `s` with its ASCII letters uppercased.
pub open spec fn ascii_uppercase(s: Seq<char>) -> Seq<char> {
    Seq::new(s.len(), |i: int| ascii_upper(s[i]))
}

/// `str::to_lowercase`: the lowercase equivalent of `s` under Unicode's
/// mapping. The contract names the result, and states what the mapping
/// is on ASCII text: each letter `A`..`Z` becomes `a`..`z`, every other
/// character stays.
#[verifier::external_body]
pub fn to_lowercase(s: &str) -> (r: String)
    ensures
        r@ == std_to_lowercase(s@),
        is_ascii_text(s@) ==> r@ == ascii_lowercase(s@),
{
    s.to_lowercase()
}

/// The decimal digit for `d` (`0 <= d < 10`).
pub open spec fn digit_char(d: int) -> char {
    if d == 0 { '0' } else if d == 1 { '1' } else if d == 2 { '2' } else if d == 3 { '3' }
    else if d == 4 { '4' } else if d == 5 { '5' } else if d == 6 { '6' } else if d == 7 { '7' }
    else if d == 8 { '8' } else { '9' }
}

/// Decimal digits of a natural number, most significant first, no leading zeros.
pub open spec fn spec_nat_digits(n: nat) -> Seq<char>
    decreases n,
{
    if n < 10 {
        seq![digit_char(n as int)]
    } else {
        spec_nat_digits(n / 10) + seq![digit_char((n % 10) as int)]
    }
}

/// Decimal spelling of an integer, with a leading `-` when negative.
pub open spec fn spec_decimal(i: int) -> Seq<char> {
    if i < 0 {
        seq!['-'] + spec_nat_digits((-i) as nat)
    } else {
        spec_nat_digits(i as nat)
    }
}

fn digit_of(d: u64) -> (c: char)
    requires
        d < 10,
    ensures
        c == digit_char(d as int),
{
    if d == 0 { '0' } else if d == 1 { '1' } else if d == 2 { '2' } else if d == 3 { '3' }
    else if d == 4 { '4' } else if d == 5 { '5' } else if d == 6 { '6' } else if d == 7 { '7' }
    else if d == 8 { '8' } else { '9' }
}

fn nat_digits(n: u64) -> (v: Vec<char>)
    ensures
        v@ == spec_nat_digits(n as nat),
    decreases n,
{
    if n < 10 {
        let mut v = Vec::new();
        v.push(digit_of(n));
        v
    } else {
        let mut v = nat_digits(n / 10);
        v.push(digit_of(n % 10));
        v
    }
}

fn push_chars(r: &mut String, v: &Vec<char>)
    ensures
        final(r)@ == old(r)@ + v@,
{
    let mut i: usize = 0;
    while i < v.len()
        invariant
            i <= v.len(),
            r@ == old(r)@ + v@.subrange(0, i as int),
        decreases v.len() - i,
    {
        push_char(r, v[i]);
        proof {
            assert(v@.subrange(0, i + 1) =~= v@.subrange(0, i as int).push(v@[i as int]));
        }
        i = i + 1;
    }
    proof {
        assert(v@.subrange(0, v@.len() as int) =~= v@);
    }
}

/// Append the decimal spelling of `i` to `r`.
pub fn append_decimal(r: &mut String, i: i64)
    ensures
        final(r)@ == old(r)@ + spec_decimal(i as int),
{
    if i < 0 {
        push_char(r, '-');
        let m: u64 = if i == i64::MIN { 9223372036854775808u64 } else { (-i) as u64 };
        let v = nat_digits(m);
        push_chars(r, &v);
    } else {
        let v = nat_digits(i as u64);
        push_chars(r, &v);
    }
}

/// What `str::to_uppercase` returns for a string (Unicode uppercase mapping).
pub uninterp spec fn std_to_uppercase(s: Seq<char>) -> Seq<char>;

/// `str::to_uppercase`: the uppercase equivalent of `s` under Unicode's
/// mapping. The contract names the result, and states what the mapping is
/// on ASCII text: each letter `a`..`z` becomes `A`..`Z`, every other
/// character stays.
#[verifier::external_body]
pub fn to_uppercase(s: &str) -> (r: String)
    ensures
        r@ == std_to_uppercase(s@),
        is_ascii_text(s@) ==> r@ == ascii_uppercase(s@),
{
    s.to_uppercase()
}

/// What `char::is_alphanumeric` says of a character (Unicode `Alphabetic`
/// or `Numeric`).
pub uninterp spec fn std_is_alphanumeric(c: char) -> bool;

/// Whether `c` is an ASCII letter or digit.
pub open spec fn is_ascii_alnum(c: char) -> bool {
    let u = c as u32;
    (48 <= u <= 57) || (65 <= u <= 90) || (97 <= u <= 122)
}

/// `char::is_alphanumeric`. The contract names the result, and states it on
/// ASCII characters: exactly the letters and digits are alphanumeric.
#[verifier::external_body]
pub fn is_alphanumeric(c: char) -> (r: bool)
    ensures
        r == std_is_alphanumeric(c),
        (c as u32) < 128 ==> r == is_ascii_alnum(c),
{
    c.is_alphanumeric()
}

/// Whether `c` has Unicode's `White_Space` property (what
/// `char::is_whitespace` tests): U+0009..U+000D, U+0020, U+0085, U+00A0,
/// U+1680, U+2000..U+200A, U+2028, U+2029, U+202F, U+205F, U+3000.
pub open spec fn is_white_space(c: char) -> bool {
    let u = c as u32;
    (9 <= u <= 13) || u == 32 || u == 0x85 || u == 0xa0 || u == 0x1680 || (0x2000 <= u <= 0x200a) || u == 0x2028
        || u == 0x2029 || u == 0x202f || u == 0x205f || u == 0x3000
}

/// `char::is_whitespace`.
pub fn is_whitespace_char(c: char) -> (r: bool)
    ensures
        r == is_white_space(c),
{
    let u = c as u32;
    (9 <= u && u <= 13) || u == 32 || u == 0x85 || u == 0xa0 || u == 0x1680 || (0x2000 <= u && u <= 0x200a) || u
        == 0x2028 || u == 0x2029 || u == 0x202f || u == 0x205f || u == 0x3000
}

/// `s` without leading whitespace.
pub open spec fn spec_trim_start(s: Seq<char>) -> Seq<char>
    decreases s.len(),
{
    if s.len() > 0 && is_white_space(s[0]) {
        spec_trim_start(s.drop_first())
    } else {
        s
    }
}

/// `s` without trailing whitespace.
pub open spec fn spec_trim_end(s: Seq<char>) -> Seq<char>
    decreases s.len(),
{
    if s.len() > 0 && is_white_space(s.last()) {
        spec_trim_end(s.drop_last())
    } else {
        s
    }
}

/// Trimming ASCII text gives ASCII text.
pub proof fn lemma_trim_ascii(s: Seq<char>)
    requires
        is_ascii_text(s),
    ensures
        is_ascii_text(spec_trim_start(s)),
        is_ascii_text(spec_trim_end(s)),
        is_ascii_text(spec_trim(s)),
    decreases s.len(),
{
    if s.len() > 0 {
        assert(is_ascii_text(s.drop_first())) by {
            assert forall|i: int| 0 <= i < s.drop_first().len() implies (#[trigger] s.drop_first()[i] as u32) < 128 by {
                assert(s.drop_first()[i] == s[i + 1]);
            }
        }
        assert(is_ascii_text(s.drop_last())) by {
            assert forall|i: int| 0 <= i < s.drop_last().len() implies (#[trigger] s.drop_last()[i] as u32) < 128 by {
                assert(s.drop_last()[i] == s[i]);
            }
        }
        lemma_trim_ascii(s.drop_first());
        lemma_trim_ascii(s.drop_last());
    }
    lemma_trim_start_ascii_then_end(spec_trim_start(s));
}

proof fn lemma_trim_start_ascii_then_end(s: Seq<char>)
    requires
        is_ascii_text(s),
    ensures
        is_ascii_text(spec_trim_end(s)),
    decreases s.len(),
{
    if s.len() > 0 {
        assert(is_ascii_text(s.drop_last())) by {
            assert forall|i: int| 0 <= i < s.drop_last().len() implies (#[trigger] s.drop_last()[i] as u32) < 128 by {
                assert(s.drop_last()[i] == s[i]);
            }
        }
        lemma_trim_start_ascii_then_end(s.drop_last());
    }
}

/// `s` without leading and trailing whitespace (what `str::trim` returns).
pub open spec fn spec_trim(s: Seq<char>) -> Seq<char> {
    spec_trim_end(spec_trim_start(s))
}

/// A string of the characters `v`.
pub fn string_of_chars(v: &Vec<char>) -> (r: String)
    ensures
        r@ == v@,
{
    let mut r = String::new();
    let mut i: usize = 0;
    while i < v.len()
        invariant
            i <= v.len(),
            r@ == v@.take(i as int),
        decreases v.len() - i,
    {
        push_char(&mut r, v[i]);
        proof {
            assert(v@.take(i + 1) =~= v@.take(i as int).push(v@[i as int]));
        }
        i = i + 1;
    }
    proof {
        assert(v@.take(v@.len() as int) =~= v@);
    }
    r
}

/// `s` without leading and trailing whitespace.
pub fn trim(s: &str) -> (r: String)
    ensures
        r@ == spec_trim(s@),
{
    let v = chars_of(s);
    let mut a: usize = 0;
    proof {
        assert(v@.skip(0) =~= v@);
    }
    while a < v.len() && is_whitespace_char(v[a])
        invariant
            a <= v.len(),
            v@ == s@,
            spec_trim_start(s@) == spec_trim_start(v@.skip(a as int)),
        decreases v.len() - a,
    {
        proof {
            assert(v@.skip(a as int).drop_first() =~= v@.skip(a + 1));
        }
        a = a + 1;
    }
    proof {
        assert(spec_trim_start(v@.skip(a as int)) == v@.skip(a as int));
    }
    let mut b: usize = v.len();
    proof {
        assert(v@.subrange(a as int, b as int) =~= v@.skip(a as int));
    }
    while b > a && is_whitespace_char(v[b - 1])
        invariant
            a <= b <= v.len(),
            v@ == s@,
            spec_trim(s@) == spec_trim_end(v@.subrange(a as int, b as int)),
        decreases b,
    {
        proof {
            assert(v@.subrange(a as int, b as int).drop_last() =~= v@.subrange(a as int, b - 1));
        }
        b = b - 1;
    }
    let mut out: Vec<char> = Vec::new();
    let mut i: usize = a;
    while i < b
        invariant
            a <= i <= b <= v.len(),
            out@ == v@.subrange(a as int, i as int),
        decreases b - i,
    {
        out.push(v[i]);
        proof {
            assert(v@.subrange(a as int, i + 1) =~= v@.subrange(a as int, i as int).push(v@[i as int]));
        }
        i = i + 1;
    }
    string_of_chars(&out)
}

} // verus!
