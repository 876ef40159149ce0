//! What reading a model's answer promises: an object that was written out is
//! found again, whatever its texts hold and whatever stands around it.

use vstd::prelude::*;
use crate::json::{
    escaped,
    escaped_char,
    json_text,
    listed,
    listed_members,
    quoted,
    JsonView,
};
use crate::skill_proposer::judge::{
    answers_at,
    at_rest,
    closes_at,
    first_object,
    opens_at,
    scan,
    scan_over,
    Scan,
};
use crate::text::decimal_text;

verus! {

/// Whether a character is neither a brace nor a quotation mark.
pub open spec fn plain_char(c: char) -> bool {
    c != '{' && c != '}' && c != '"'
}

/// Whether a text has neither braces nor quotation marks.
pub open spec fn plain(s: Seq<char>) -> bool {
    forall|i: int| 0 <= i < s.len() ==> plain_char(#[trigger] s[i])
}

/// Whether the numbers in a value that are kept as texts are plain.
pub open spec fn plain_numbers(j: JsonView) -> bool
    decreases j,
{
    match j {
        JsonView::Float(s) => plain(s),
        JsonView::Array(v) => forall|i: int| 0 <= i < v.len() ==> plain_numbers(#[trigger] v[i]),
        JsonView::Object(m) => forall|i: int|
            0 <= i < m.len() ==> plain_numbers((#[trigger] m[i]).1),
        _ => true,
    }
}

/// The scan `s`, gone on over `t`.
spec fn after(s: Scan, t: Seq<char>) -> Scan
    decreases t.len(),
{
    if t.len() == 0 {
        s
    } else {
        scan_over(after(s, t.drop_last()), t.last())
    }
}

/// Whether the scan `s` goes on over `t` to end as deep as it began, without
/// getting less deep in between.
spec fn balanced_from(s: Scan, t: Seq<char>) -> bool {
    &&& after(s, t) == s
    &&& forall|k: int| 0 <= k <= t.len() ==> (#[trigger] after(s, t.take(k))).depth >= s.depth
}

/// Whether `t`, come upon outside of a string, is in balance.
#[verifier::opaque]
spec fn balanced(t: Seq<char>) -> bool {
    forall|s: Scan| !s.in_string && !s.escape ==> #[trigger] balanced_from(s, t)
}

proof fn lemma_after(s: Scan, a: Seq<char>, b: Seq<char>)
    ensures
        after(s, a + b) == after(after(s, a), b),
    decreases b.len(),
{
    if b.len() == 0 {
        assert(a + b =~= a);
    } else {
        lemma_after(s, a, b.drop_last());
        assert((a + b).drop_last() =~= a + b.drop_last());
        assert((a + b).last() == b.last());
    }
}

proof fn lemma_after_one(s: Scan, c: char)
    ensures
        after(s, seq![c]) == scan_over(s, c),
{
    assert(seq![c].drop_last() =~= Seq::<char>::empty());
    assert(after(s, seq![c].drop_last()) == s);
}

proof fn lemma_scan_is_after(text: Seq<char>, to: int)
    requires
        0 <= to <= text.len(),
    ensures
        scan(text, 0, to) == after(at_rest(), text.take(to)),
    decreases to,
{
    if to > 0 {
        lemma_scan_is_after(text, to - 1);
        assert(text.take(to).drop_last() =~= text.take(to - 1));
    }
}

proof fn lemma_balanced_join(a: Seq<char>, b: Seq<char>)
    requires
        balanced(a),
        balanced(b),
    ensures
        balanced(a + b),
{
    reveal(balanced);
    assert forall|s: Scan| !s.in_string && !s.escape implies #[trigger] balanced_from(
        s,
        a + b,
    ) by {
        lemma_after(s, a, b);
        assert(balanced_from(s, a));
        assert(balanced_from(s, b));
        assert forall|k: int| 0 <= k <= (a + b).len() implies (#[trigger] after(
            s,
            (a + b).take(k),
        )).depth >= s.depth by {
            if k <= a.len() {
                assert((a + b).take(k) =~= a.take(k));
                assert(after(s, a.take(k)).depth >= s.depth);
            } else {
                let l = k - a.len();
                assert((a + b).take(k) =~= a + b.take(l));
                lemma_after(s, a, b.take(l));
                assert(after(s, b.take(l)).depth >= s.depth);
            }
        }
    }
}

proof fn lemma_plain_after(s: Scan, t: Seq<char>)
    requires
        plain(t),
        !s.in_string,
    ensures
        after(s, t) == s,
    decreases t.len(),
{
    if t.len() > 0 {
        lemma_plain_after(s, t.drop_last());
        assert(plain_char(t[t.len() - 1]));
    }
}

proof fn lemma_plain_is_balanced(t: Seq<char>)
    requires
        plain(t),
    ensures
        balanced(t),
{
    reveal(balanced);
    assert forall|s: Scan| !s.in_string && !s.escape implies #[trigger] balanced_from(s, t) by {
        lemma_plain_after(s, t);
        assert forall|k: int| 0 <= k <= t.len() implies (#[trigger] after(s, t.take(k))).depth
            >= s.depth by {
            assert forall|i: int| 0 <= i < t.take(k).len() implies plain_char(
                #[trigger] t.take(k)[i],
            ) by {
                assert(t.take(k)[i] == t[i]);
            }
            lemma_plain_after(s, t.take(k));
        }
    }
}

/// Inside a string the scan stays there, as deep as it was, over every part of
/// an escaped character, and is not behind a backslash at its end.
proof fn lemma_escaped_char(s: Scan, c: char)
    requires
        s.in_string,
        !s.escape,
    ensures
        after(s, escaped_char(c)) == s,
        forall|k: int|
            0 <= k <= escaped_char(c).len() ==> (#[trigger] after(
                s,
                escaped_char(c).take(k),
            )).in_string && after(s, escaped_char(c).take(k)).depth == s.depth,
{
    let e = escaped_char(c);
    assert forall|k: int| 0 <= k <= e.len() implies (#[trigger] after(s, e.take(k)))
        == (Scan { escape: k == 1 && e.len() > 1, ..s }) by {
        lemma_escaped_char_part(s, c, k);
    }
    assert(e.take(e.len() as int) =~= e);
    assert(after(s, e.take(e.len() as int)) == s);
}

proof fn lemma_escaped_char_part(s: Scan, c: char, k: int)
    requires
        s.in_string,
        !s.escape,
        0 <= k <= escaped_char(c).len(),
    ensures
        after(s, escaped_char(c).take(k)) == (Scan {
            escape: k == 1 && escaped_char(c).len() > 1,
            ..s
        }),
    decreases k,
{
    let e = escaped_char(c);
    if k > 0 {
        lemma_escaped_char_part(s, c, k - 1);
        assert(e.take(k).drop_last() =~= e.take(k - 1));
        assert(e.take(k).last() == e[k - 1]);
        let u = c as int;
        if e.len() == 6 && k >= 2 {
            assert(0 <= u / 16 < 16 && 0 <= u % 16 < 16);
            assert(e[k - 1] != '"' && e[k - 1] != '\\');
        }
    }
}

proof fn lemma_escaped(s: Scan, t: Seq<char>)
    requires
        s.in_string,
        !s.escape,
    ensures
        after(s, escaped(t)) == s,
        forall|k: int|
            0 <= k <= escaped(t).len() ==> (#[trigger] after(s, escaped(t).take(k))).in_string
                && after(s, escaped(t).take(k)).depth == s.depth,
    decreases t.len(),
{
    if t.len() == 0 {
        assert forall|k: int| 0 <= k <= escaped(t).len() implies (#[trigger] after(
            s,
            escaped(t).take(k),
        )) == s by {
            assert(escaped(t).take(k) =~= Seq::empty());
        }
    } else {
        let a = escaped(t.drop_last());
        let b = escaped_char(t.last());
        lemma_escaped(s, t.drop_last());
        lemma_escaped_char(s, t.last());
        lemma_after(s, a, b);
        assert forall|k: int| 0 <= k <= escaped(t).len() implies (#[trigger] after(
            s,
            escaped(t).take(k),
        )).in_string && after(s, escaped(t).take(k)).depth == s.depth by {
            if k <= a.len() {
                assert((a + b).take(k) =~= a.take(k));
                assert(after(s, a.take(k)).in_string);
            } else {
                let l = k - a.len();
                assert((a + b).take(k) =~= a + b.take(l));
                lemma_after(s, a, b.take(l));
                assert(after(s, b.take(l)).in_string);
            }
        }
    }
}

proof fn lemma_quoted_is_balanced(t: Seq<char>)
    ensures
        balanced(quoted(t)),
{
    reveal(balanced);
    let q = seq!['"'];
    let e = escaped(t);
    assert forall|s: Scan| !s.in_string && !s.escape implies #[trigger] balanced_from(
        s,
        quoted(t),
    ) by {
        let inside = Scan { in_string: true, ..s };
        lemma_after_one(s, '"');
        assert(after(s, q) == inside);
        lemma_escaped(inside, t);
        lemma_after(s, q, e);
        lemma_after(s, q + e, q);
        lemma_after_one(inside, '"');
        assert(after(s, quoted(t)) == s);
        assert forall|k: int| 0 <= k <= quoted(t).len() implies (#[trigger] after(
            s,
            quoted(t).take(k),
        )).depth >= s.depth by {
            if k == 0 {
                assert(quoted(t).take(k) =~= Seq::empty());
            } else if k <= 1 + e.len() {
                assert(quoted(t).take(k) =~= q + e.take(k - 1));
                lemma_after(s, q, e.take(k - 1));
                assert(after(inside, e.take(k - 1)).depth == s.depth);
            } else {
                assert(quoted(t).take(k) =~= quoted(t));
            }
        }
    }
}

proof fn lemma_decimals_are_plain(n: nat)
    ensures
        plain(decimal_text(n)),
    decreases n,
{
    if n >= 10 {
        lemma_decimals_are_plain(n / 10);
    }
}

/// `{`, something in balance, `}`: as deep at the end as at the start, and
/// deeper in between.
proof fn lemma_braced(s: Scan, inner: Seq<char>, k: int)
    requires
        balanced(inner),
        !s.in_string,
        !s.escape,
        0 <= k <= inner.len() + 2,
    ensures
        ({
            let t = seq!['{'] + inner + seq!['}'];
            &&& after(s, t) == s
            &&& after(s, t.take(k)).depth >= s.depth
            &&& 0 < k < t.len() ==> after(s, t.take(k)).depth > s.depth
        }),
{
    reveal(balanced);
    let open = seq!['{'];
    let t = open + inner + seq!['}'];
    let deeper = Scan { depth: s.depth + 1, ..s };
    lemma_after_one(s, '{');
    lemma_after(s, open, inner);
    assert(balanced_from(deeper, inner));
    lemma_after(s, open + inner, seq!['}']);
    lemma_after_one(deeper, '}');
    if k == 0 {
        assert(t.take(k) =~= Seq::empty());
    } else if k < t.len() {
        assert(t.take(k) =~= open + inner.take(k - 1));
        lemma_after(s, open, inner.take(k - 1));
        assert(after(deeper, inner.take(k - 1)).depth >= deeper.depth);
    } else {
        assert(t.take(k) =~= t);
    }
}

proof fn lemma_value_is_balanced(j: JsonView)
    requires
        plain_numbers(j),
    ensures
        balanced(json_text(j)),
    decreases j,
{
    match j {
        JsonView::Unsigned(n) => {
            lemma_decimals_are_plain(n as nat);
            lemma_plain_is_balanced(decimal_text(n as nat));
        },
        JsonView::Signed(n) => {
            if n < 0 {
                lemma_decimals_are_plain((-n) as nat);
            } else {
                lemma_decimals_are_plain(n as nat);
            }
            lemma_plain_is_balanced(json_text(j));
        },
        JsonView::Str(s) => {
            lemma_quoted_is_balanced(s);
        },
        JsonView::Array(v) => {
            lemma_list_is_balanced(v);
            lemma_plain_is_balanced(seq!['[']);
            lemma_plain_is_balanced(seq![']']);
            lemma_balanced_join(seq!['['], listed(v));
            lemma_balanced_join(seq!['['] + listed(v), seq![']']);
        },
        JsonView::Object(m) => {
            lemma_members_are_balanced(m);
            let t = seq!['{'] + listed_members(m) + seq!['}'];
            reveal(balanced);
            assert forall|s: Scan| !s.in_string && !s.escape implies #[trigger] balanced_from(
                s,
                t,
            ) by {
                lemma_braced(s, listed_members(m), 0);
                assert forall|k: int| 0 <= k <= t.len() implies (#[trigger] after(
                    s,
                    t.take(k),
                )).depth >= s.depth by {
                    lemma_braced(s, listed_members(m), k);
                }
            }
        },
        _ => {
            lemma_plain_is_balanced(json_text(j));
        },
    }
}

proof fn lemma_list_is_balanced(v: Seq<JsonView>)
    requires
        forall|i: int| 0 <= i < v.len() ==> plain_numbers(#[trigger] v[i]),
    ensures
        balanced(listed(v)),
    decreases v,
{
    if v.len() == 0 {
        lemma_plain_is_balanced(listed(v));
    } else {
        lemma_value_is_balanced(v[v.len() - 1]);
        if v.len() > 1 {
            assert forall|i: int| 0 <= i < v.drop_last().len() implies plain_numbers(
                #[trigger] v.drop_last()[i],
            ) by {
                assert(v.drop_last()[i] == v[i]);
            }
            lemma_list_is_balanced(v.drop_last());
            lemma_plain_is_balanced(seq![',']);
            lemma_balanced_join(listed(v.drop_last()), seq![',']);
            lemma_balanced_join(listed(v.drop_last()) + seq![','], json_text(v.last()));
        }
    }
}

proof fn lemma_members_are_balanced(m: Seq<(Seq<char>, JsonView)>)
    requires
        forall|i: int| 0 <= i < m.len() ==> plain_numbers((#[trigger] m[i]).1),
    ensures
        balanced(listed_members(m)),
    decreases m,
{
    if m.len() == 0 {
        lemma_plain_is_balanced(listed_members(m));
    } else {
        let last = m[m.len() - 1];
        lemma_value_is_balanced(last.1);
        lemma_quoted_is_balanced(last.0);
        lemma_plain_is_balanced(seq![':']);
        if m.len() == 1 {
            lemma_balanced_join(quoted(last.0), seq![':']);
            lemma_balanced_join(quoted(last.0) + seq![':'], json_text(last.1));
        } else {
            assert forall|i: int| 0 <= i < m.drop_last().len() implies plain_numbers(
                (#[trigger] m.drop_last()[i]).1,
            ) by {
                assert(m.drop_last()[i] == m[i]);
            }
            lemma_members_are_balanced(m.drop_last());
            lemma_plain_is_balanced(seq![',']);
            let a = listed_members(m.drop_last());
            lemma_balanced_join(a, seq![',']);
            lemma_balanced_join(a + seq![','], quoted(last.0));
            lemma_balanced_join(a + seq![','] + quoted(last.0), seq![':']);
            lemma_balanced_join(a + seq![','] + quoted(last.0) + seq![':'], json_text(last.1));
        }
    }
}

/// An object that was written out is found in an answer, from its first brace to
/// its last, whatever its texts hold (braces, quotation marks and backslashes
/// among it), whatever stands behind it, and with anything before it that has no
/// braces or quotation marks.
pub proof fn law_a_written_object_is_found(
    before: Seq<char>,
    members: Seq<(Seq<char>, JsonView)>,
    behind: Seq<char>,
)
    requires
        plain(before),
        plain_numbers(JsonView::Object(members)),
    ensures
        ({
            let written = json_text(JsonView::Object(members));
            let answer = before + written + behind;
            let i = before.len() as int;
            let j = before.len() + written.len() - 1;
            answers_at(answer, i, j) && answer.subrange(i, j + 1) == written
        }),
{
    let written = json_text(JsonView::Object(members));
    let inner = listed_members(members);
    let answer = before + written + behind;
    let i = before.len() as int;
    let j = before.len() + written.len() - 1;
    lemma_members_are_balanced(members);
    assert(answer.subrange(i, j + 1) =~= written);
    assert forall|k: int| 0 <= k <= written.len() implies (#[trigger] scan(answer, 0, i + k))
        == after(at_rest(), written.take(k)) by {
        lemma_scan_is_after(answer, i + k);
        assert(answer.take(i + k) =~= before + written.take(k));
        lemma_after(at_rest(), before, written.take(k));
        lemma_plain_after(at_rest(), before);
    }
    assert(written.take(0) =~= Seq::empty());
    assert(scan(answer, 0, i + 0) == at_rest());
    assert(answer[i] == '{');
    assert(opens_at(answer, i));
    assert forall|k: int| 0 <= k < i implies !#[trigger] opens_at(answer, k) by {
        assert(answer[k] == before[k]);
        assert(plain_char(before[k]));
    }
    let n = written.len() - 1;
    lemma_braced(at_rest(), inner, n);
    assert(written.take(n) =~= seq!['{'] + inner);
    lemma_after_one(at_rest(), '{');
    lemma_after(at_rest(), seq!['{'], inner);
    let deeper = Scan { depth: 1, ..at_rest() };
    assert(after(deeper, inner) == deeper) by {
        reveal(balanced);
        assert(balanced_from(deeper, inner));
    }
    assert(scan(answer, 0, i + n) == deeper);
    assert(answer[j] == '}');
    assert(closes_at(answer, 0, j));
    assert forall|k: int| i < k < j implies !#[trigger] closes_at(answer, 0, k) by {
        let l = k - i + 1;
        lemma_braced(at_rest(), inner, l);
        assert(scan(answer, 0, i + l).depth > 0);
        assert(scan(answer, 0, k + 1) == scan_over(scan(answer, 0, k), answer[k]));
    }
    assert(first_object(answer, i, j));
}

} // verus!
