//! Text as sequences of characters: the string operations that the rest of
//! the library is built from, each with the value it computes.

use vstd::prelude::*;

verus! {

/// `String::push`: appends one character.
pub assume_specification[ String::push ](s: &mut String, c: char)
    ensures
        final(s)@ == old(s)@.push(c),
;

/// `String::push_str`: appends a string slice.
pub assume_specification[ String::push_str ](s: &mut String, other: &str)
    ensures
        final(s)@ == old(s)@ + other@,
;

/// The texts of a sequence of strings.
pub open spec fn texts(v: Seq<String>) -> Seq<Seq<char>> {
    v.map_values(|s: String| s@)
}

/// The characters of a string slice.
pub fn chars_of(s: &str) -> (r: Vec<char>)
    ensures
        r@ == s@,
{
    let mut r: Vec<char> = Vec::new();
    for c in it: s.chars()
        invariant
            r@ == s@.take(it.index()),
            it.seq() == s@,
    {
        r.push(c);
    }
    assert(s@.take(s@.len() as int) == s@);
    r
}

/// The string made of the characters `lo..hi` of `chars`.
pub fn string_of(chars: &Vec<char>, lo: usize, hi: usize) -> (r: String)
    requires
        lo <= hi <= chars@.len(),
    ensures
        r@ == chars@.subrange(lo as int, hi as int),
{
    let mut r: String = String::new();
    let mut i: usize = lo;
    while i < hi
        invariant
            lo <= i <= hi <= chars@.len(),
            r@ == chars@.subrange(lo as int, i as int),
        decreases hi - i,
    {
        r.push(chars[i]);
        i = i + 1;
    }
    r
}

/// Whether two string slices hold the same text.
pub fn same_text(a: &str, b: &str) -> (r: bool)
    ensures
        r == (a@ == b@),
{
    let x: Vec<char> = chars_of(a);
    let y: Vec<char> = chars_of(b);
    if x.len() != y.len() {
        return false;
    }
    let mut i: usize = 0;
    while i < x.len()
        invariant
            i <= x@.len() == y@.len(),
            x@ == a@,
            y@ == b@,
            forall|j: int| 0 <= j < i ==> x@[j] == y@[j],
        decreases x@.len() - i,
    {
        if x[i] != y[i] {
            return false;
        }
        i = i + 1;
    }
    assert(a@ =~= b@);
    true
}

// ---------------------------------------------------------------------------
// White space
// ---------------------------------------------------------------------------

/// The characters with Unicode's White_Space property.
pub open spec fn white_space(c: char) -> bool {
    let u = c as u32;
    ||| 0x9 <= u <= 0xD
    ||| u == 0x20
    ||| u == 0x85
    ||| u == 0xA0
    ||| u == 0x1680
    ||| 0x2000 <= u <= 0x200A
    ||| u == 0x2028
    ||| u == 0x2029
    ||| u == 0x202F
    ||| u == 0x205F
    ||| u == 0x3000
}

/// Whether `c` is white space.
pub fn is_white_space(c: char) -> (r: bool)
    ensures
        r == white_space(c),
{
    let u: u32 = c as u32;
    (0x9 <= u && u <= 0xD) || u == 0x20 || u == 0x85 || u == 0xA0 || u == 0x1680 || (0x2000 <= u
        && u <= 0x200A) || u == 0x2028 || u == 0x2029 || u == 0x202F || u == 0x205F || u == 0x3000
}

/// A text with nothing but white space in it.
pub open spec fn blank(s: Seq<char>) -> bool {
    forall|i: int| 0 <= i < s.len() ==> white_space(#[trigger] s[i])
}

/// How many characters of white space `s` starts with.
pub open spec fn leading_white(s: Seq<char>) -> nat
    decreases s.len(),
{
    if s.len() > 0 && white_space(s[0]) {
        1 + leading_white(s.drop_first())
    } else {
        0
    }
}

/// How many characters of white space `s` ends with.
pub open spec fn trailing_white(s: Seq<char>) -> nat
    decreases s.len(),
{
    if s.len() > 0 && white_space(s.last()) {
        1 + trailing_white(s.drop_last())
    } else {
        0
    }
}

/// `s` without the white space it ends with.
pub open spec fn trimmed_end(s: Seq<char>) -> Seq<char> {
    s.take(s.len() - trailing_white(s))
}

/// `s` without the white space around it.
pub open spec fn trimmed(s: Seq<char>) -> Seq<char> {
    trimmed_end(s.skip(leading_white(s) as int))
}

proof fn lemma_leading_white(s: Seq<char>)
    ensures
        leading_white(s) <= s.len(),
        blank(s.take(leading_white(s) as int)),
        leading_white(s) < s.len() ==> !white_space(s[leading_white(s) as int]),
    decreases s.len(),
{
    if s.len() > 0 && white_space(s[0]) {
        lemma_leading_white(s.drop_first());
        let n = leading_white(s.drop_first()) as int;
        assert forall|i: int| 0 <= i < n + 1 implies white_space(#[trigger] s.take(n + 1)[i]) by {
            if i > 0 {
                assert(s.drop_first().take(n)[i - 1] == s[i]);
            }
        }
    }
}

proof fn lemma_leading_white_is(s: Seq<char>, n: nat)
    requires
        n <= s.len(),
        blank(s.take(n as int)),
        n < s.len() ==> !white_space(s[n as int]),
    ensures
        leading_white(s) == n,
    decreases s.len(),
{
    if n > 0 {
        assert(s.take(n as int)[0] == s[0]);
        let t = s.drop_first();
        assert forall|i: int| 0 <= i < n - 1 implies white_space(#[trigger] t.take(n - 1)[i]) by {
            assert(s.take(n as int)[i + 1] == t.take(n - 1)[i]);
        }
        lemma_leading_white_is(t, (n - 1) as nat);
    }
}

/// The end of `s` without trailing white space: the white space it ends with
/// is all of what lies behind that end.
pub proof fn lemma_trailing_white(s: Seq<char>)
    ensures
        trailing_white(s) <= s.len(),
        forall|i: int| s.len() - trailing_white(s) <= i < s.len() ==> white_space(#[trigger] s[i]),
        trailing_white(s) < s.len() ==> !white_space(s[s.len() - trailing_white(s) - 1]),
    decreases s.len(),
{
    if s.len() > 0 && white_space(s.last()) {
        lemma_trailing_white(s.drop_last());
        let t = s.drop_last();
        assert forall|i: int| s.len() - trailing_white(s) <= i < s.len() implies white_space(
            #[trigger] s[i],
        ) by {
            if i < t.len() {
                assert(t[i] == s[i]);
            }
        }
    }
}

proof fn lemma_trailing_white_is(s: Seq<char>, n: nat)
    requires
        n <= s.len(),
        forall|i: int| s.len() - n <= i < s.len() ==> white_space(#[trigger] s[i]),
        n < s.len() ==> !white_space(s[s.len() - n - 1]),
    ensures
        trailing_white(s) == n,
    decreases s.len(),
{
    if n > 0 {
        assert(white_space(s[s.len() - 1]));
        let t = s.drop_last();
        assert forall|i: int| t.len() - (n - 1) <= i < t.len() implies white_space(#[trigger] t[i]) by {
            assert(s[i] == t[i]);
        }
        lemma_trailing_white_is(t, (n - 1) as nat);
    }
}

/// A text is blank exactly when nothing is left of it once trimmed.
pub proof fn lemma_blank_is_trimmed_empty(s: Seq<char>)
    ensures
        blank(s) <==> trimmed(s).len() == 0,
{
    lemma_leading_white(s);
    let n = leading_white(s) as int;
    let t = s.skip(n);
    lemma_trailing_white(t);
    if blank(s) {
        if n < s.len() {
            assert(white_space(s[n]));
        }
    } else {
        let i = choose|i: int| 0 <= i < s.len() && !white_space(#[trigger] s[i]);
        if n == s.len() {
            assert(s.take(n)[i] == s[i]);
        } else {
            assert(t[0] == s[n]);
            if trailing_white(t) == t.len() {
                assert(white_space(t[0]));
            }
        }
    }
}

/// Whether `s` holds nothing but white space.
pub fn is_blank(s: &str) -> (r: bool)
    ensures
        r == blank(s@),
        r == (trimmed(s@).len() == 0),
{
    proof {
        lemma_blank_is_trimmed_empty(s@);
    }
    let v: Vec<char> = chars_of(s);
    let mut i: usize = 0;
    while i < v.len()
        invariant
            i <= v@.len(),
            v@ == s@,
            forall|j: int| 0 <= j < i ==> white_space(#[trigger] s@[j]),
            blank(s@) <==> trimmed(s@).len() == 0,
        decreases v@.len() - i,
    {
        if !is_white_space(v[i]) {
            assert(!white_space(s@[i as int]));
            return false;
        }
        i = i + 1;
    }
    true
}

/// `s` without the white space around it.
pub fn trim(s: &str) -> (r: String)
    ensures
        r@ == trimmed(s@),
{
    let v: Vec<char> = chars_of(s);
    let mut lo: usize = 0;
    while lo < v.len() && is_white_space(v[lo])
        invariant
            lo <= v@.len(),
            forall|j: int| 0 <= j < lo ==> white_space(#[trigger] v@[j]),
        decreases v@.len() - lo,
    {
        lo = lo + 1;
    }
    proof {
        assert forall|i: int| 0 <= i < lo implies white_space(#[trigger] v@.take(lo as int)[i]) by {
            assert(v@[i] == v@.take(lo as int)[i]);
        }
        lemma_leading_white_is(v@, lo as nat);
    }
    let mut hi: usize = v.len();
    while hi > lo && is_white_space(v[hi - 1])
        invariant
            lo <= hi <= v@.len(),
            forall|j: int| hi <= j < v@.len() ==> white_space(#[trigger] v@[j]),
        decreases hi,
    {
        hi = hi - 1;
    }
    proof {
        let t = v@.skip(lo as int);
        assert forall|i: int| hi - lo <= i < t.len() implies white_space(#[trigger] t[i]) by {
            assert(v@[i + lo] == t[i]);
        }
        if hi > lo {
            assert(t[hi - lo - 1] == v@[hi - 1]);
        }
        lemma_trailing_white_is(t, (v@.len() - hi) as nat);
        assert(v@.subrange(lo as int, hi as int) == t.take(hi - lo));
    }
    string_of(&v, lo, hi)
}

// ---------------------------------------------------------------------------
// Numerals
// ---------------------------------------------------------------------------

/// The character for a digit below sixteen, in lower case.
pub open spec fn digit_char(d: int) -> char {
    if d < 10 {
        (0x30 + d) as char
    } else {
        (0x57 + d) as char
    }
}

/// `n` in decimal.
pub open spec fn decimal_text(n: nat) -> Seq<char>
    decreases n,
{
    if n < 10 {
        seq![digit_char(n as int)]
    } else {
        decimal_text(n / 10).push(digit_char((n % 10) as int))
    }
}

/// The last `width` hexadecimal digits of `n`.
pub open spec fn hex_text(n: nat, width: nat) -> Seq<char>
    decreases width,
{
    if width == 0 {
        Seq::empty()
    } else {
        hex_text(n / 16, (width - 1) as nat).push(digit_char((n % 16) as int))
    }
}

fn digit(d: u64) -> (c: char)
    requires
        d < 16,
    ensures
        c == digit_char(d as int),
{
    if d < 10 {
        (0x30u8 + d as u8) as char
    } else {
        (0x57u8 + d as u8) as char
    }
}

/// Appends `n` in decimal to `out`.
pub fn push_decimal(out: &mut String, n: u64)
    ensures
        final(out)@ == old(out)@ + decimal_text(n as nat),
    decreases n,
{
    if n < 10 {
        out.push(digit(n));
        assert(out@ == old(out)@ + decimal_text(n as nat));
    } else {
        push_decimal(out, n / 10);
        let ghost mid = out@;
        out.push(digit(n % 10));
        assert(mid == old(out)@ + decimal_text((n / 10) as nat));
        assert(out@ == old(out)@ + decimal_text(n as nat));
    }
}

/// `n` in decimal.
pub fn decimal(n: u64) -> (r: String)
    ensures
        r@ == decimal_text(n as nat),
{
    let mut r: String = String::new();
    push_decimal(&mut r, n);
    r
}

fn push_hex(out: &mut String, n: u64, width: u32)
    ensures
        final(out)@ == old(out)@ + hex_text(n as nat, width as nat),
    decreases width,
{
    if width > 0 {
        push_hex(out, n / 16, width - 1);
        let ghost mid = out@;
        out.push(digit(n % 16));
        assert(mid == old(out)@ + hex_text((n / 16) as nat, (width - 1) as nat));
        assert(out@ == old(out)@ + hex_text(n as nat, width as nat));
    } else {
        assert(out@ == old(out)@ + hex_text(n as nat, 0));
    }
}

/// `n` as sixteen hexadecimal digits.
pub fn hex16(n: u64) -> (r: String)
    ensures
        r@ == hex_text(n as nat, 16),
        r@.len() == 16,
{
    let mut r: String = String::new();
    push_hex(&mut r, n, 16);
    proof {
        lemma_hex_len(n as nat, 16);
    }
    r
}

proof fn lemma_hex_len(n: nat, width: nat)
    ensures
        hex_text(n, width).len() == width,
    decreases width,
{
    if width > 0 {
        lemma_hex_len(n / 16, (width - 1) as nat);
    }
}

// ---------------------------------------------------------------------------
// Joining
// ---------------------------------------------------------------------------

/// `parts` one after the other with `sep` between neighbours.
pub open spec fn joined(parts: Seq<Seq<char>>, sep: Seq<char>) -> Seq<char>
    decreases parts.len(),
{
    if parts.len() == 0 {
        Seq::empty()
    } else if parts.len() == 1 {
        parts[0]
    } else {
        joined(parts.drop_last(), sep) + sep + parts.last()
    }
}

/// What is joined reads as its parts, one after the other, with the separator
/// between each two.
pub proof fn law_joining_adds_one_part(parts: Seq<Seq<char>>, sep: Seq<char>, last: Seq<char>)
    ensures
        joined(Seq::empty(), sep) == Seq::<char>::empty(),
        joined(parts.push(last), sep) == if parts.len() == 0 {
            last
        } else {
            joined(parts, sep) + sep + last
        },
{
    assert(parts.push(last).drop_last() =~= parts);
}

/// What is joined with blanks is blank exactly where each part is.
pub proof fn law_joined_is_blank_with_its_parts(parts: Seq<Seq<char>>, sep: Seq<char>)
    requires
        blank(sep),
    ensures
        blank(joined(parts, sep)) <==> forall|i: int|
            0 <= i < parts.len() ==> blank(#[trigger] parts[i]),
    decreases parts.len(),
{
    if parts.len() > 1 {
        let rest = parts.drop_last();
        let a = joined(rest, sep);
        let b = parts.last();
        law_joined_is_blank_with_its_parts(rest, sep);
        lemma_blank_together(a + sep, b);
        lemma_blank_together(a, sep);
        if forall|i: int| 0 <= i < parts.len() ==> blank(#[trigger] parts[i]) {
            assert forall|i: int| 0 <= i < rest.len() implies blank(#[trigger] rest[i]) by {
                assert(parts[i] == rest[i]);
            }
            assert(blank(parts[parts.len() - 1]));
        }
        if blank(joined(parts, sep)) {
            assert forall|i: int| 0 <= i < parts.len() implies blank(#[trigger] parts[i]) by {
                if i < rest.len() {
                    assert(rest[i] == parts[i]);
                }
            }
        }
    } else if parts.len() == 1 {
        if blank(parts[0]) {
            assert forall|i: int| 0 <= i < parts.len() implies blank(#[trigger] parts[i]) by {}
        }
    }
}

proof fn lemma_blank_together(a: Seq<char>, b: Seq<char>)
    ensures
        blank(a + b) <==> blank(a) && blank(b),
{
    if blank(a + b) {
        assert forall|i: int| 0 <= i < a.len() implies white_space(#[trigger] a[i]) by {
            assert((a + b)[i] == a[i]);
        }
        assert forall|i: int| 0 <= i < b.len() implies white_space(#[trigger] b[i]) by {
            assert((a + b)[a.len() + i] == b[i]);
        }
    }
}

/// `parts` one after the other with `sep` between neighbours.
pub fn join(parts: &Vec<String>, sep: &str) -> (r: String)
    ensures
        r@ == joined(texts(parts@), sep@),
{
    let mut r: String = String::new();
    let mut i: usize = 0;
    while i < parts.len()
        invariant
            i <= parts@.len(),
            r@ == joined(texts(parts@).take(i as int), sep@),
        decreases parts@.len() - i,
    {
        let ghost t = texts(parts@);
        assert(t.take(i + 1).drop_last() == t.take(i as int));
        if i > 0 {
            r.push_str(sep);
        }
        r.push_str(parts[i].as_str());
        assert(t.take(i + 1).last() == parts@[i as int]@);
        i = i + 1;
    }
    assert(texts(parts@).take(i as int) == texts(parts@));
    r
}

// ---------------------------------------------------------------------------
// Searching
// ---------------------------------------------------------------------------

/// Whether `needle` stands in `hay` from position `i` on.
pub open spec fn occurs_at(hay: Seq<char>, needle: Seq<char>, i: int) -> bool {
    &&& 0 <= i
    &&& i + needle.len() <= hay.len()
    &&& hay.subrange(i, i + needle.len()) == needle
}

/// Whether `needle` stands somewhere in `hay`.
pub open spec fn occurs(hay: Seq<char>, needle: Seq<char>) -> bool {
    exists|i: int| #[trigger] occurs_at(hay, needle, i)
}

/// Whether `hay` starts with `needle`.
pub open spec fn begins_with(hay: Seq<char>, needle: Seq<char>) -> bool {
    occurs_at(hay, needle, 0)
}

/// `hay` up to the first `needle` in it, or all of it.
pub open spec fn before_first(hay: Seq<char>, needle: Seq<char>) -> Seq<char>
    decreases hay.len(),
{
    if hay.len() == 0 || begins_with(hay, needle) {
        Seq::empty()
    } else {
        seq![hay[0]] + before_first(hay.drop_first(), needle)
    }
}

fn matches_at(hay: &Vec<char>, needle: &Vec<char>, i: usize) -> (r: bool)
    requires
        i <= hay@.len(),
    ensures
        r == occurs_at(hay@, needle@, i as int),
{
    let total: usize = hay.len();
    if needle.len() > total - i {
        return false;
    }
    let mut j: usize = 0;
    while j < needle.len()
        invariant
            j <= needle@.len(),
            i + needle@.len() <= hay@.len() == total,
            forall|k: int| 0 <= k < j ==> hay@[i + k] == needle@[k],
        decreases needle@.len() - j,
    {
        if hay[i + j] != needle[j] {
            assert(hay@.subrange(i as int, i + needle@.len())[j as int] != needle@[j as int]);
            return false;
        }
        j = j + 1;
    }
    assert(hay@.subrange(i as int, i + needle@.len()) =~= needle@);
    true
}

/// Where `needle` first stands in `hay`, if it does.
pub fn find(hay: &str, needle: &str) -> (r: Option<usize>)
    ensures
        match r {
            Some(i) => occurs_at(hay@, needle@, i as int) && forall|j: int|
                0 <= j < i ==> !#[trigger] occurs_at(hay@, needle@, j),
            None => !occurs(hay@, needle@),
        },
{
    let h: Vec<char> = chars_of(hay);
    let n: Vec<char> = chars_of(needle);
    let mut i: usize = 0;
    while i < h.len()
        invariant
            i <= h@.len(),
            h@ == hay@,
            n@ == needle@,
            forall|j: int| 0 <= j < i ==> !#[trigger] occurs_at(hay@, needle@, j),
        decreases h@.len() - i,
    {
        if matches_at(&h, &n, i) {
            return Some(i);
        }
        i = i + 1;
    }
    if matches_at(&h, &n, i) {
        Some(i)
    } else {
        None
    }
}

/// Whether `needle` stands somewhere in `hay`.
pub fn contains(hay: &str, needle: &str) -> (r: bool)
    ensures
        r == occurs(hay@, needle@),
{
    find(hay, needle).is_some()
}

/// Whether `hay` starts with `needle`.
pub fn starts_with(hay: &str, needle: &str) -> (r: bool)
    ensures
        r == begins_with(hay@, needle@),
{
    let h: Vec<char> = chars_of(hay);
    let n: Vec<char> = chars_of(needle);
    matches_at(&h, &n, 0)
}

proof fn lemma_before_first_at(hay: Seq<char>, needle: Seq<char>, i: int)
    requires
        0 <= i <= hay.len(),
        i < hay.len() ==> occurs_at(hay, needle, i),
        forall|j: int| 0 <= j < i ==> !#[trigger] occurs_at(hay, needle, j),
    ensures
        before_first(hay, needle) == hay.take(i),
    decreases hay.len(),
{
    if hay.len() == 0 {
    } else if i == 0 {
    } else {
        let t = hay.drop_first();
        assert(!occurs_at(hay, needle, 0));
        assert forall|j: int| 0 <= j < i - 1 implies !#[trigger] occurs_at(t, needle, j) by {
            assert(!occurs_at(hay, needle, j + 1));
            if j + needle.len() <= t.len() {
                assert(t.subrange(j, j + needle.len()) =~= hay.subrange(j + 1, j + 1 + needle.len()));
            }
        }
        if i < hay.len() {
            assert(t.subrange(i - 1, i - 1 + needle.len()) =~= hay.subrange(i, i + needle.len()));
        }
        lemma_before_first_at(t, needle, i - 1);
        assert(hay.take(i) =~= seq![hay[0]] + t.take(i - 1));
    }
}

/// What precedes the first `needle` in `hay` is a prefix of `hay` without
/// `needle` in it; it is all of `hay` when there is none.
pub proof fn lemma_before_first(hay: Seq<char>, needle: Seq<char>)
    requires
        needle.len() > 0,
    ensures
        !occurs(hay, needle) ==> before_first(hay, needle) == hay,
        occurs(hay, needle) ==> occurs_at(hay, needle, before_first(hay, needle).len() as int),
        before_first(hay, needle).len() <= hay.len(),
        before_first(hay, needle) == hay.take(before_first(hay, needle).len() as int),
        !occurs(before_first(hay, needle), needle),
    decreases hay.len(),
{
    if hay.len() == 0 {
    } else if begins_with(hay, needle) {
    } else {
        let t = hay.drop_first();
        lemma_before_first(t, needle);
        let b = before_first(t, needle);
        assert forall|i: int| #[trigger] occurs_at(hay, needle, i) implies occurs_at(t, needle, i - 1) by {
            assert(t.subrange(i - 1, i - 1 + needle.len()) =~= hay.subrange(i, i + needle.len()));
        }
        assert forall|i: int| #[trigger] occurs_at(t, needle, i) implies occurs_at(hay, needle, i + 1) by {
            assert(t.subrange(i, i + needle.len()) =~= hay.subrange(i + 1, i + 1 + needle.len()));
        }
        if occurs(hay, needle) {
            let i = choose|i: int| #[trigger] occurs_at(hay, needle, i);
            assert(occurs_at(t, needle, i - 1));
        }
        let r = before_first(hay, needle);
        assert(r =~= seq![hay[0]] + b);
        assert(hay =~= seq![hay[0]] + t);
        assert forall|i: int| !#[trigger] occurs_at(r, needle, i) by {
            if occurs_at(r, needle, i) {
                if i > 0 {
                    assert(b.subrange(i - 1, i - 1 + needle.len()) =~= r.subrange(
                        i,
                        i + needle.len(),
                    ));
                    assert(occurs_at(b, needle, i - 1));
                } else {
                    assert(hay.subrange(0, needle.len() as int) =~= r.subrange(
                        0,
                        needle.len() as int,
                    ));
                    assert(begins_with(hay, needle));
                }
            }
        }
    }
}

/// `hay` up to the first `needle` in it, or all of it.
pub fn until_first(hay: &str, needle: &str) -> (r: String)
    requires
        needle@.len() > 0,
    ensures
        r@ == before_first(hay@, needle@),
{
    let h: Vec<char> = chars_of(hay);
    let n: Vec<char> = chars_of(needle);
    let mut i: usize = 0;
    while i < h.len()
        invariant
            i <= h@.len(),
            h@ == hay@,
            n@ == needle@,
            forall|j: int| 0 <= j < i ==> !#[trigger] occurs_at(hay@, needle@, j),
        decreases h@.len() - i,
    {
        if matches_at(&h, &n, i) {
            proof {
                lemma_before_first_at(hay@, needle@, i as int);
            }
            return string_of(&h, 0, i);
        }
        i = i + 1;
    }
    proof {
        lemma_before_first_at(hay@, needle@, i as int);
    }
    string_of(&h, 0, i)
}

// ---------------------------------------------------------------------------
// Length in bytes
// ---------------------------------------------------------------------------

/// How many bytes UTF-8 takes for `c`.
pub open spec fn utf8_width(c: char) -> nat {
    let u = c as u32;
    if u < 0x80 {
        1
    } else if u < 0x800 {
        2
    } else if u < 0x10000 {
        3
    } else {
        4
    }
}

/// How many bytes UTF-8 takes for `s`.
pub open spec fn utf8_len(s: Seq<char>) -> nat
    decreases s.len(),
{
    if s.len() == 0 {
        0
    } else {
        utf8_len(s.drop_last()) + utf8_width(s.last())
    }
}

/// The longest prefix of `s` that takes at most `max` bytes.
pub open spec fn byte_prefix(s: Seq<char>, max: nat) -> Seq<char>
    decreases s.len(),
{
    if utf8_len(s) <= max {
        s
    } else {
        byte_prefix(s.drop_last(), max)
    }
}

/// `byte_prefix` is a prefix within the limit, and one more character would
/// exceed it.
pub proof fn lemma_byte_prefix(s: Seq<char>, max: nat)
    ensures
        byte_prefix(s, max).len() <= s.len(),
        byte_prefix(s, max) == s.take(byte_prefix(s, max).len() as int),
        utf8_len(byte_prefix(s, max)) <= max,
        byte_prefix(s, max).len() < s.len() ==> utf8_len(
            s.take(byte_prefix(s, max).len() as int + 1),
        ) > max,
    decreases s.len(),
{
    if utf8_len(s) <= max {
        assert(s.take(s.len() as int) == s);
    } else {
        let t = s.drop_last();
        lemma_byte_prefix(t, max);
        let n = byte_prefix(t, max).len() as int;
        assert(t.take(n) =~= s.take(n));
        if n < t.len() {
            assert(t.take(n + 1) =~= s.take(n + 1));
        } else {
            assert(s.take(n + 1) =~= s);
        }
    }
}

proof fn lemma_utf8_len_take(s: Seq<char>, i: int)
    requires
        0 <= i < s.len(),
    ensures
        utf8_len(s.take(i + 1)) == utf8_len(s.take(i)) + utf8_width(s[i]),
{
    assert(s.take(i + 1).drop_last() =~= s.take(i));
}

proof fn lemma_utf8_len_mono(s: Seq<char>, i: int, j: int)
    requires
        0 <= i <= j <= s.len(),
    ensures
        utf8_len(s.take(i)) <= utf8_len(s.take(j)),
    decreases j - i,
{
    if i < j {
        lemma_utf8_len_take(s, j - 1);
        lemma_utf8_len_mono(s, i, j - 1);
    }
}

proof fn lemma_byte_prefix_is(s: Seq<char>, max: nat, n: int)
    requires
        0 <= n <= s.len(),
        utf8_len(s.take(n)) <= max,
        n < s.len() ==> utf8_len(s.take(n + 1)) > max,
    ensures
        byte_prefix(s, max) == s.take(n),
    decreases s.len(),
{
    if n == s.len() {
        assert(s.take(n) =~= s);
    } else {
        lemma_utf8_len_mono(s, n + 1, s.len() as int);
        assert(s.take(s.len() as int) =~= s);
        let t = s.drop_last();
        assert(t.take(n) =~= s.take(n));
        if n < t.len() {
            assert(t.take(n + 1) =~= s.take(n + 1));
        }
        lemma_byte_prefix_is(t, max, n);
    }
}

fn char_width(c: char) -> (r: usize)
    ensures
        r == utf8_width(c),
{
    let u: u32 = c as u32;
    if u < 0x80 {
        1
    } else if u < 0x800 {
        2
    } else if u < 0x10000 {
        3
    } else {
        4
    }
}

/// The longest prefix of `s` that takes at most `max` bytes.
pub fn truncate(s: &str, max: usize) -> (r: String)
    ensures
        r@ == byte_prefix(s@, max as nat),
{
    let v: Vec<char> = chars_of(s);
    let mut used: usize = 0;
    let mut i: usize = 0;
    while i < v.len()
        invariant
            i <= v@.len(),
            v@ == s@,
            used == utf8_len(v@.take(i as int)),
            used <= max,
        decreases v@.len() - i,
    {
        let w: usize = char_width(v[i]);
        proof {
            lemma_utf8_len_take(v@, i as int);
        }
        if w > max - used {
            proof {
                lemma_byte_prefix_is(v@, max as nat, i as int);
            }
            return string_of(&v, 0, i);
        }
        used = used + w;
        i = i + 1;
    }
    proof {
        lemma_byte_prefix_is(v@, max as nat, i as int);
    }
    string_of(&v, 0, i)
}

/// Where the byte offset `n` of `s` falls between two characters: how many
/// stand before it.
pub open spec fn chars_before(s: Seq<char>, n: nat) -> nat {
    byte_prefix(s, n).len()
}

/// Whether the byte offset `n` falls between two characters of `s`.
pub open spec fn is_boundary(s: Seq<char>, n: nat) -> bool {
    utf8_len(byte_prefix(s, n)) == n
}

fn count_before(v: &Vec<char>, n: usize) -> (r: (usize, usize))
    ensures
        r.0 == chars_before(v@, n as nat),
        r.1 == utf8_len(byte_prefix(v@, n as nat)),
        r.0 <= v@.len(),
        r.1 <= n,
{
    let mut used: usize = 0;
    let mut i: usize = 0;
    while i < v.len()
        invariant
            i <= v@.len(),
            used == utf8_len(v@.take(i as int)),
            used <= n,
        decreases v@.len() - i,
    {
        let w: usize = char_width(v[i]);
        proof {
            lemma_utf8_len_take(v@, i as int);
        }
        if w > n - used {
            proof {
                lemma_byte_prefix_is(v@, n as nat, i as int);
            }
            return (i, used);
        }
        used = used + w;
        i = i + 1;
    }
    proof {
        lemma_byte_prefix_is(v@, n as nat, i as int);
    }
    (i, used)
}

/// How many characters of `s` stand before the byte offset `n`, if it falls
/// between two of them.
pub fn split_point(s: &str, n: usize) -> (r: Option<usize>)
    ensures
        match r {
            Some(k) => is_boundary(s@, n as nat) && k == chars_before(s@, n as nat) && k
                <= s@.len(),
            None => !is_boundary(s@, n as nat),
        },
{
    let v: Vec<char> = chars_of(s);
    let (k, used) = count_before(&v, n);
    if used == n {
        Some(k)
    } else {
        None
    }
}

// ---------------------------------------------------------------------------
// Lines
// ---------------------------------------------------------------------------

/// How many characters precede the first line break of `s`.
pub open spec fn line_end(s: Seq<char>) -> nat
    decreases s.len(),
{
    if s.len() == 0 || s[0] == '\n' {
        0
    } else {
        1 + line_end(s.drop_first())
    }
}

/// A line without the carriage return before its line feed.
pub open spec fn without_return(line: Seq<char>) -> Seq<char> {
    if line.len() > 0 && line.last() == '\r' {
        line.drop_last()
    } else {
        line
    }
}

/// The lines of `s`. Each ends with a line feed, or a carriage return and a
/// line feed; the last one need not.
pub open spec fn lines_of(s: Seq<char>) -> Seq<Seq<char>>
    decreases s.len(),
{
    if s.len() == 0 {
        Seq::empty()
    } else {
        let k = line_end(s) as int;
        if k >= s.len() {
            seq![s]
        } else {
            seq![without_return(s.take(k))] + lines_of(s.skip(k + 1))
        }
    }
}

proof fn lemma_line_end(s: Seq<char>)
    ensures
        line_end(s) <= s.len(),
        forall|i: int| 0 <= i < line_end(s) ==> #[trigger] s[i] != '\n',
        line_end(s) < s.len() ==> s[line_end(s) as int] == '\n',
    decreases s.len(),
{
    if s.len() > 0 && s[0] != '\n' {
        let t = s.drop_first();
        lemma_line_end(t);
        assert forall|i: int| 0 <= i < line_end(s) implies #[trigger] s[i] != '\n' by {
            if i > 0 {
                assert(t[i - 1] != '\n');
            }
        }
    }
}

proof fn lemma_line_end_is(s: Seq<char>, k: nat)
    requires
        k <= s.len(),
        forall|i: int| 0 <= i < k ==> #[trigger] s[i] != '\n',
        k < s.len() ==> s[k as int] == '\n',
    ensures
        line_end(s) == k,
    decreases s.len(),
{
    if k > 0 {
        let t = s.drop_first();
        assert(s[0] != '\n');
        assert forall|i: int| 0 <= i < k - 1 implies #[trigger] t[i] != '\n' by {
            assert(s[i + 1] != '\n');
        }
        lemma_line_end_is(t, (k - 1) as nat);
    }
}

/// The lines of `s`.
pub fn lines(s: &str) -> (r: Vec<String>)
    ensures
        texts(r@) == lines_of(s@),
{
    let v: Vec<char> = chars_of(s);
    let mut out: Vec<String> = Vec::new();
    let mut start: usize = 0;
    assert(v@.skip(0) =~= v@);
    while start < v.len()
        invariant
            start <= v@.len(),
            texts(out@) + lines_of(v@.skip(start as int)) == lines_of(v@),
        decreases v@.len() - start,
    {
        let ghost rest = v@.skip(start as int);
        let mut end: usize = start;
        while end < v.len() && v[end] != '\n'
            invariant
                start <= end <= v@.len(),
                forall|i: int| start <= i < end ==> #[trigger] v@[i] != '\n',
            decreases v@.len() - end,
        {
            end = end + 1;
        }
        proof {
            assert forall|i: int| 0 <= i < end - start implies #[trigger] rest[i] != '\n' by {
                assert(v@[i + start] != '\n');
            }
            lemma_line_end_is(rest, (end - start) as nat);
        }
        let ghost before = out@;
        if end == v.len() {
            let line: String = string_of(&v, start, end);
            out.push(line);
            proof {
                assert(line@ =~= rest);
                assert(texts(out@) =~= texts(before).push(rest));
                assert(v@.skip(end as int) =~= Seq::empty());
                assert(lines_of(v@.skip(end as int)) =~= Seq::empty());
                assert(texts(out@) + lines_of(v@.skip(end as int)) =~= texts(before) + lines_of(
                    rest,
                ));
            }
            start = end;
        } else {
            let last: usize = if end > start && v[end - 1] == '\r' {
                end - 1
            } else {
                end
            };
            let line: String = string_of(&v, start, last);
            out.push(line);
            proof {
                let k = end - start;
                assert(rest.take(k) =~= v@.subrange(start as int, end as int));
                if k > 0 {
                    assert(rest.take(k).last() == v@[end - 1]);
                }
                assert(line@ =~= without_return(rest.take(k)));
                assert(rest.skip(k + 1) =~= v@.skip(end + 1));
                assert(texts(out@) =~= texts(before).push(line@));
                assert(texts(out@) + lines_of(v@.skip(end + 1)) =~= texts(before) + lines_of(rest));
            }
            start = end + 1;
        }
    }
    assert(v@.skip(start as int) =~= Seq::empty());
    assert(texts(out@) + lines_of(v@.skip(start as int)) =~= texts(out@));
    out
}

// ---------------------------------------------------------------------------
// Debug forms
// ---------------------------------------------------------------------------

/// `s` as `{:?}` shows it: in quotation marks, with what is not printable
/// escaped.
pub uninterp spec fn debug_form(s: Seq<char>) -> Seq<char>;

/// `str`'s `Debug` form, through `format!`: a function of the text alone.
#[verifier::external_body]
pub(crate) fn debug_text(s: &str) -> (r: String)
    ensures
        r@ == debug_form(s@),
{
    format!("{:?}", s)
}

/// The path `s` as `{:?}` shows it.
pub uninterp spec fn path_form(s: Seq<char>) -> Seq<char>;

/// `std::path::Path`'s `Debug` form of the path that `s` writes, through
/// `format!`: a function of the text alone. It need not be that of the text
/// itself.
#[verifier::external_body]
pub(crate) fn path_text(s: &str) -> (r: String)
    ensures
        r@ == path_form(s@),
{
    format!("{:?}", std::path::Path::new(s))
}

/// A signed number in decimal.
pub open spec fn signed_text(n: int) -> Seq<char> {
    if n < 0 {
        seq!['-'] + decimal_text((-n) as nat)
    } else {
        decimal_text(n as nat)
    }
}

/// An exit code as `{:?}` shows it.
pub open spec fn code_form(code: Option<i32>) -> Seq<char> {
    match code {
        Some(n) => "Some("@ + signed_text(n as int) + ")"@,
        None => "None"@,
    }
}

/// Appends an exit code as `{:?}` shows it.
pub fn push_code(out: &mut String, code: Option<i32>)
    ensures
        final(out)@ == old(out)@ + code_form(code),
{
    match code {
        Some(n) => {
            out.push_str("Some(");
            if n < 0 {
                out.push('-');
                push_decimal(out, (-(n as i64)) as u64);
            } else {
                push_decimal(out, n as u64);
            }
            out.push_str(")");
            assert(out@ =~= old(out)@ + code_form(code));
        },
        None => {
            out.push_str("None");
        },
    }
}

// ---------------------------------------------------------------------------
// Splitting and replacing
// ---------------------------------------------------------------------------

/// What a text is split at.
#[derive(Debug, Clone, Copy, PartialEq, Eq, Structural)]
pub enum Separator {
    /// The slashes of a path.
    Slash,
    /// What ends a word of a shell command: white space, operators, quotation
    /// marks and the equals sign.
    ShellWord,
}

/// Whether `c` separates.
pub open spec fn separates(sep: Separator, c: char) -> bool {
    match sep {
        Separator::Slash => c == '/',
        Separator::ShellWord => white_space(c) || c == '|' || c == '&' || c == ';' || c == '<' || c
            == '>' || c == '(' || c == ')' || c == '`' || c == '"' || c == '\'' || c == '=',
    }
}

/// The pieces of `s` between separators, empty ones among them.
pub open spec fn pieces(s: Seq<char>, sep: Separator) -> Seq<Seq<char>>
    decreases s.len(),
{
    if s.len() == 0 {
        seq![Seq::empty()]
    } else {
        let before = pieces(s.drop_last(), sep);
        if separates(sep, s.last()) {
            before.push(Seq::empty())
        } else {
            before.drop_last().push(before.last().push(s.last()))
        }
    }
}

fn is_separator(sep: Separator, c: char) -> (r: bool)
    ensures
        r == separates(sep, c),
{
    match sep {
        Separator::Slash => c == '/',
        Separator::ShellWord => is_white_space(c) || c == '|' || c == '&' || c == ';' || c == '<'
            || c == '>' || c == '(' || c == ')' || c == '`' || c == '"' || c == '\'' || c == '=',
    }
}

/// The pieces of `s` between separators, empty ones among them.
pub fn split(s: &str, sep: Separator) -> (r: Vec<String>)
    ensures
        texts(r@) == pieces(s@, sep),
{
    let v: Vec<char> = chars_of(s);
    let mut out: Vec<String> = Vec::new();
    let mut piece: String = String::new();
    let mut i: usize = 0;
    assert(texts(out@).push(piece@) =~= pieces(v@.take(0), sep));
    while i < v.len()
        invariant
            i <= v@.len(),
            texts(out@).push(piece@) == pieces(v@.take(i as int), sep),
        decreases v@.len() - i,
    {
        let ghost before = texts(out@).push(piece@);
        let c: char = v[i];
        proof {
            assert(v@.take(i + 1).drop_last() =~= v@.take(i as int));
            assert(before.drop_last() =~= texts(out@));
        }
        if is_separator(sep, c) {
            let ghost prior = out@;
            out.push(piece);
            piece = String::new();
            assert(texts(out@) =~= before);
            assert(texts(out@).push(piece@) =~= before.push(Seq::empty()));
        } else {
            piece.push(c);
        }
        i = i + 1;
    }
    assert(v@.take(i as int) =~= v@);
    let ghost last = out@;
    out.push(piece);
    assert(texts(out@) =~= texts(last).push(piece@));
    out
}

/// `s` with every `from` in it replaced by `to`, from the left on.
pub open spec fn replaced(s: Seq<char>, from: Seq<char>, to: Seq<char>) -> Seq<char>
    decreases s.len(),
{
    if s.len() == 0 || from.len() == 0 {
        s
    } else if begins_with(s, from) {
        to + replaced(s.skip(from.len() as int), from, to)
    } else {
        seq![s[0]] + replaced(s.drop_first(), from, to)
    }
}

/// `s` with every `from` in it replaced by `to`, from the left on.
pub fn replace_all(s: &str, from: &str, to: &str) -> (r: String)
    requires
        from@.len() > 0,
    ensures
        r@ == replaced(s@, from@, to@),
{
    let v: Vec<char> = chars_of(s);
    let f: Vec<char> = chars_of(from);
    let mut out: String = String::new();
    let mut i: usize = 0;
    assert(v@.skip(0) =~= v@);
    while i < v.len()
        invariant
            i <= v@.len(),
            f@ == from@,
            from@.len() > 0,
            out@ + replaced(v@.skip(i as int), from@, to@) == replaced(v@, from@, to@),
        decreases v@.len() - i,
    {
        let ghost rest = v@.skip(i as int);
        let ghost before = out@;
        if matches_at(&v, &f, i) {
            proof {
                assert(rest.subrange(0, from@.len() as int) =~= v@.subrange(
                    i as int,
                    i + from@.len(),
                ));
                assert(rest.skip(from@.len() as int) =~= v@.skip(i + from@.len()));
            }
            out.push_str(to);
            i = i + f.len();
            assert(out@ + replaced(v@.skip(i as int), from@, to@) =~= before + replaced(
                rest,
                from@,
                to@,
            ));
        } else {
            proof {
                if begins_with(rest, from@) {
                    assert(rest.subrange(0, from@.len() as int) =~= v@.subrange(
                        i as int,
                        i + from@.len(),
                    ));
                }
                assert(rest.drop_first() =~= v@.skip(i + 1));
            }
            out.push(v[i]);
            i = i + 1;
            assert(out@ + replaced(v@.skip(i as int), from@, to@) =~= before + replaced(
                rest,
                from@,
                to@,
            ));
        }
    }
    assert(v@.skip(i as int) =~= Seq::empty());
    assert(out@ + replaced(v@.skip(i as int), from@, to@) =~= out@);
    out
}

// ---------------------------------------------------------------------------
// What holds of texts
// ---------------------------------------------------------------------------

/// Trimming takes away the white space at both ends, all of it, and nothing
/// else.
pub proof fn law_trimming_takes_the_ends(s: Seq<char>)
    ensures
        exists|before: Seq<char>, after: Seq<char>|
            {
                &&& #[trigger] blank(before)
                &&& #[trigger] blank(after)
                &&& s == before + trimmed(s) + after
            },
        trimmed(s).len() > 0 ==> !white_space(trimmed(s)[0]) && !white_space(trimmed(s).last()),
{
    let lead = leading_white(s) as int;
    lemma_leading_white_is_blank(s);
    let rest = s.skip(lead);
    lemma_trailing_white(rest);
    let end = rest.len() - trailing_white(rest);
    let before = s.take(lead);
    let after = rest.skip(end);
    assert(blank(after)) by {
        assert forall|i: int| 0 <= i < after.len() implies white_space(#[trigger] after[i]) by {
            assert(after[i] == rest[end + i]);
        }
    }
    assert(s =~= before + trimmed(s) + after);
    if trimmed(s).len() > 0 {
        assert(trimmed(s)[0] == rest[0]);
        assert(rest[0] == s[lead]);
        assert(trimmed(s).last() == rest[end - 1]);
    }
}

proof fn lemma_leading_white_is_blank(s: Seq<char>)
    ensures
        leading_white(s) <= s.len(),
        blank(s.take(leading_white(s) as int)),
        leading_white(s) < s.len() ==> !white_space(s[leading_white(s) as int]),
    decreases s.len(),
{
    if s.len() > 0 && white_space(s[0]) {
        let rest = s.drop_first();
        lemma_leading_white_is_blank(rest);
        let n = leading_white(rest) as int;
        assert forall|i: int| 0 <= i < n + 1 implies white_space(#[trigger] s.take(n + 1)[i]) by {
            if i > 0 {
                assert(rest.take(n)[i - 1] == s[i]);
            }
        }
    }
}

/// A text falls apart at a separator: the pieces before it, and those behind.
pub proof fn law_separators_part(before: Seq<char>, c: char, after: Seq<char>, sep: Separator)
    requires
        separates(sep, c),
    ensures
        pieces(before.push(c) + after, sep) == pieces(before, sep) + pieces(after, sep),
    decreases after.len(),
{
    let all = before.push(c) + after;
    lemma_some_piece(before, sep);
    lemma_some_piece(after, sep);
    if after.len() == 0 {
        assert(all =~= before.push(c));
        assert(all.drop_last() =~= before);
        assert(pieces(all, sep) =~= pieces(before, sep) + pieces(after, sep));
    } else {
        let rest = after.drop_last();
        law_separators_part(before, c, rest, sep);
        lemma_some_piece(rest, sep);
        assert(all.drop_last() =~= before.push(c) + rest);
        assert(all.last() == after.last());
        assert(pieces(all, sep) =~= pieces(before, sep) + pieces(after, sep));
    }
}

/// A text without a separator is one piece.
pub proof fn law_no_separator_no_parting(s: Seq<char>, sep: Separator)
    requires
        forall|i: int| 0 <= i < s.len() ==> !separates(sep, #[trigger] s[i]),
    ensures
        pieces(s, sep) == seq![s],
    decreases s.len(),
{
    if s.len() > 0 {
        let rest = s.drop_last();
        assert forall|i: int| 0 <= i < rest.len() implies !separates(sep, #[trigger] rest[i]) by {
            assert(rest[i] == s[i]);
        }
        law_no_separator_no_parting(rest, sep);
        assert(!separates(sep, s[s.len() - 1]));
        assert(rest.push(s.last()) =~= s);
        assert(pieces(s, sep) =~= seq![s]);
    } else {
        assert(s =~= Seq::<char>::empty());
    }
}

proof fn lemma_some_piece(s: Seq<char>, sep: Separator)
    ensures
        pieces(s, sep).len() > 0,
    decreases s.len(),
{
    if s.len() > 0 {
        lemma_some_piece(s.drop_last(), sep);
    }
}

/// Lines end at line breaks, which do not belong to them, and neither does a
/// carriage return before one. What stands behind the last line break is a line
/// unless it is empty.
pub proof fn law_lines_end_at_breaks(line: Seq<char>, rest: Seq<char>)
    requires
        !line.contains('\n'),
    ensures
        lines_of(line) == if line.len() == 0 {
            Seq::<Seq<char>>::empty()
        } else {
            seq![line]
        },
        lines_of(line.push('\n') + rest) == seq![
            if line.len() > 0 && line.last() == '\r' {
                line.drop_last()
            } else {
                line
            },
        ] + lines_of(rest),
{
    let all = line.push('\n') + rest;
    lemma_line_end(line);
    lemma_line_end(all);
    let k = line_end(line) as int;
    if k < line.len() {
        assert(line.contains(line[k]));
    }
    let n = line_end(all) as int;
    assert(all[line.len() as int] == '\n');
    if n < line.len() {
        assert(all[n] == line[n]);
        assert(line.contains(line[n]));
    }
    assert(all.take(line.len() as int) =~= line);
    assert(all.skip(line.len() as int + 1) =~= rest);
}

/// What is to be replaced is replaced where it first occurs, and what precedes
/// it stays; the rest is treated likewise.
pub proof fn law_replacing_starts_at_the_first(
    before: Seq<char>,
    from: Seq<char>,
    after: Seq<char>,
    to: Seq<char>,
)
    requires
        from.len() > 0,
        forall|i: int| 0 <= i < before.len() ==> !#[trigger] occurs_at(before + from + after, from, i),
    ensures
        replaced(before + from + after, from, to) == before + to + replaced(after, from, to),
    decreases before.len(),
{
    let s = before + from + after;
    if before.len() == 0 {
        assert(s.subrange(0, from.len() as int) =~= from);
        assert(s.skip(from.len() as int) =~= after);
        assert(replaced(s, from, to) =~= before + to + replaced(after, from, to));
    } else {
        let less = before.drop_first();
        let rest = less + from + after;
        assert(!occurs_at(s, from, 0));
        assert(s.drop_first() =~= rest);
        assert forall|i: int| 0 <= i < less.len() implies !#[trigger] occurs_at(rest, from, i) by {
            assert(!occurs_at(s, from, i + 1));
            if occurs_at(rest, from, i) {
                assert(s.subrange(i + 1, i + 1 + from.len()) =~= rest.subrange(i, i + from.len()));
            }
        }
        law_replacing_starts_at_the_first(less, from, after, to);
        assert(replaced(s, from, to) =~= before + to + replaced(after, from, to));
    }
}

/// Where there is nothing to replace, nothing is.
pub proof fn law_nothing_to_replace(s: Seq<char>, from: Seq<char>, to: Seq<char>)
    requires
        !occurs(s, from),
    ensures
        replaced(s, from, to) == s,
    decreases s.len(),
{
    if s.len() > 0 && from.len() > 0 {
        let rest = s.drop_first();
        assert(!occurs_at(s, from, 0));
        assert(!occurs(rest, from)) by {
            if occurs(rest, from) {
                let i = choose|i: int| #[trigger] occurs_at(rest, from, i);
                assert(s.subrange(i + 1, i + 1 + from.len()) =~= rest.subrange(i, i + from.len()));
                assert(occurs_at(s, from, i + 1));
            }
        }
        law_nothing_to_replace(rest, from, to);
        assert(replaced(s, from, to) =~= s);
    }
}

/// A number is written with the digits from 0 to 9, the one for the ones last.
pub proof fn law_decimals_are_digits(n: nat, d: nat)
    requires
        d < 10,
    ensures
        decimal_text(d).len() == 1,
        decimal_text(d)[0] as int == '0' as int + d,
        n > 0 ==> decimal_text(10 * n + d) == decimal_text(n) + decimal_text(d),
{
    if n > 0 {
        assert((10 * n + d) / 10 == n);
        assert((10 * n + d) % 10 == d);
        assert(decimal_text(10 * n + d) =~= decimal_text(n) + decimal_text(d));
    }
}

/// The bytes of a text are those of its UTF-8 form.
pub proof fn law_bytes_are_those_of_utf8(s: Seq<char>)
    ensures
        utf8_len(s) == vstd::utf8::encode_utf8(s).len(),
    decreases s.len(),
{
    if s.len() > 0 {
        let rest = s.drop_first();
        law_bytes_are_those_of_utf8(rest);
        lemma_utf8_len_from_the_front(s);
        vstd::utf8::encode_utf8_first_scalar(s);
    }
}

proof fn lemma_utf8_len_from_the_front(s: Seq<char>)
    requires
        s.len() > 0,
    ensures
        utf8_len(s) == utf8_width(s[0]) + utf8_len(s.drop_first()),
    decreases s.len(),
{
    if s.len() > 1 {
        lemma_utf8_len_from_the_front(s.drop_last());
        assert(s.drop_last().drop_first() =~= s.drop_first().drop_last());
        assert(s.drop_first().last() == s.last());
    } else {
        assert(s.drop_last() =~= Seq::<char>::empty());
        assert(s.drop_first() =~= Seq::<char>::empty());
        assert(utf8_len(s.drop_last()) == 0);
        assert(utf8_len(s.drop_first()) == 0);
    }
}

/// White space are the tab, the line break and the three signs behind it, the
/// blank, the next line, the blanks that do not break or have a width of their
/// own, and the separators of lines and paragraphs.
pub proof fn law_what_white_space_is(c: char)
    ensures
        white_space(c) <==> c == '\t' || c == '\n' || c == '\u{b}' || c == '\u{c}' || c == '\r' || c
            == ' ' || c == '\u{85}' || c == '\u{a0}' || c == '\u{1680}' || ('\u{2000}' <= c && c
            <= '\u{200a}') || c == '\u{2028}' || c == '\u{2029}' || c == '\u{202f}' || c
            == '\u{205f}' || c == '\u{3000}',
{
}

/// A number is written in sixteens with as many digits as asked for, the one for
/// the ones last.
pub proof fn law_sixteens_are_digits(n: nat, d: nat, width: nat)
    requires
        d < 16,
    ensures
        hex_text(n, width).len() == width,
        hex_text(16 * n + d, width + 1) == hex_text(n, width).push(
            "0123456789abcdef"@[d as int],
        ),
    decreases width,
{
    reveal_strlit("0123456789abcdef");
    assert((16 * n + d) / 16 == n);
    assert((16 * n + d) % 16 == d);
    if width > 0 {
        law_sixteens_are_digits(n / 16, d, (width - 1) as nat);
    }
}

/// An exit code is shown as a number, with its sign where it is below zero; that
/// there is none is said.
pub proof fn law_how_an_exit_code_is_shown(n: i32)
    ensures
        code_form(None) == "None"@,
        n >= 0 ==> code_form(Some(n)) == "Some("@ + decimal_text(n as nat) + ")"@,
        n < 0 ==> code_form(Some(n)) == "Some("@ + ("-"@ + decimal_text((-n) as nat)) + ")"@,
{
    reveal_strlit("-");
    assert(seq!['-'] =~= "-"@);
}

} // verus!
