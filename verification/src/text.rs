//! Building text: decimal numerals, character access and the ordering of strings.
use vstd::prelude::*;
use vstd::string::*;

verus! {

broadcast use vstd::seq_lib::to_multiset_insert;

/// Appends one character to a string.
///
/// Calls `String::push`, whose documentation says that it appends the given
/// char to the end of the string; that is all the contract claims.
#[verifier::external_body]
pub(crate) fn push_char(s: &mut String, c: char)
    ensures
        final(s)@ == old(s)@.push(c),
{
    s.push(c)
}

/// Appends the characters of `t` to `s`.
pub fn push_text(s: &mut String, t: &str)
    ensures
        final(s)@ == old(s)@ + t@,
{
    s.append(t);
}

/// The character of the decimal digit `d`.
pub open spec fn digit_char(d: int) -> char {
    (48 + d) as char
}

/// The decimal numeral of `n`, without leading zeros.
pub open spec fn decimal(n: nat) -> Seq<char>
    decreases n,
{
    if n < 10 {
        seq![digit_char(n as int)]
    } else {
        decimal(n / 10).push(digit_char((n % 10) as int))
    }
}

/// The decimal numeral of `n`, with a minus sign when negative.
pub open spec fn signed_decimal(n: int) -> Seq<char> {
    if n < 0 {
        seq!['-'] + decimal((-n) as nat)
    } else {
        decimal(n as nat)
    }
}

fn digit(d: u64) -> (c: char)
    requires
        d < 10,
    ensures
        c == digit_char(d as int),
{
    ((d as u8) + 48u8) as char
}

/// Appends the decimal numeral of `n` to `s`.
pub fn push_decimal(s: &mut String, n: u64)
    ensures
        final(s)@ == old(s)@ + decimal(n as nat),
    decreases n,
{
    if n < 10 {
        push_char(s, digit(n));
        assert(decimal(n as nat) =~= seq![digit_char(n as int)]);
    } else {
        push_decimal(s, n / 10);
        push_char(s, digit(n % 10));
        assert(decimal(n as nat) =~= decimal((n / 10) as nat).push(digit_char((n % 10) as int)));
    }
}

/// Appends the decimal numeral of the signed `n` to `s`.
pub fn push_signed_decimal(s: &mut String, n: i64)
    ensures
        final(s)@ == old(s)@ + signed_decimal(n as int),
{
    if n < 0 {
        push_char(s, '-');
        let m: u64 = if n == i64::MIN {
            9223372036854775808u64
        } else {
            (0 - n) as u64
        };
        push_decimal(s, m);
        assert(seq!['-'] + decimal(m as nat) =~= seq!['-'].add(decimal(m as nat)));
    } else {
        push_decimal(s, n as u64);
    }
}

/// The characters of `s`.
pub fn chars_of(s: &str) -> (v: Vec<char>)
    ensures
        v@ == s@,
{
    let n = s.unicode_len();
    let mut v: Vec<char> = Vec::new();
    let mut i: usize = 0;
    while i < n
        invariant
            n == s@.len(),
            0 <= i <= n,
            v@ == s@.subrange(0, i as int),
        decreases n - i,
    {
        let c = s.get_char(i);
        v.push(c);
        i = i + 1;
        assert(v@ =~= s@.subrange(0, i as int));
    }
    assert(v@ =~= s@);
    v
}

/// Whether two strings hold the same characters.
pub fn text_eq(a: &str, b: &str) -> (r: bool)
    ensures
        r == (a@ == b@),
{
    let x = a.to_owned();
    let y = b.to_owned();
    x == y
}

/// Lexicographic order on code points (which is also the byte order of UTF-8).
pub open spec fn lex_le(a: Seq<char>, b: Seq<char>) -> bool
    decreases a.len(),
{
    if a.len() == 0 {
        true
    } else if b.len() == 0 {
        false
    } else if a[0] < b[0] {
        true
    } else if a[0] == b[0] {
        lex_le(a.drop_first(), b.drop_first())
    } else {
        false
    }
}

/// The views of a vector of texts.
pub open spec fn text_views(v: Seq<String>) -> Seq<Seq<char>> {
    v.map_values(|s: String| s@)
}

/// A sequence of texts sorted by [`lex_le`].
pub open spec fn lex_sorted(s: Seq<Seq<char>>) -> bool {
    forall|i: int, j: int| 0 <= i < j < s.len() ==> lex_le(#[trigger] s[i], #[trigger] s[j])
}

/// Two texts are always comparable.
pub proof fn lemma_lex_total(a: Seq<char>, b: Seq<char>)
    ensures
        lex_le(a, b) || lex_le(b, a),
    decreases a.len(),
{
    if a.len() > 0 && b.len() > 0 && a[0] == b[0] {
        lemma_lex_total(a.drop_first(), b.drop_first());
    }
}

/// The order is transitive.
pub proof fn lemma_lex_trans(a: Seq<char>, b: Seq<char>, c: Seq<char>)
    requires
        lex_le(a, b),
        lex_le(b, c),
    ensures
        lex_le(a, c),
    decreases a.len(),
{
    if a.len() > 0 && b.len() > 0 && c.len() > 0 && a[0] == b[0] && b[0] == c[0] {
        lemma_lex_trans(a.drop_first(), b.drop_first(), c.drop_first());
    }
}

/// Whether `a` comes no later than `b` in lexicographic order.
pub fn lex_le_exec(a: &Vec<char>, b: &Vec<char>) -> (r: bool)
    ensures
        r == lex_le(a@, b@),
{
    let mut i: usize = 0;
    assert(a@.subrange(0, a@.len() as int) =~= a@ && b@.subrange(0, b@.len() as int) =~= b@);
    while i < a.len()
        invariant
            0 <= i <= a@.len(),
            i <= b@.len(),
            a@.subrange(0, i as int) == b@.subrange(0, i as int),
            lex_le(a@, b@) == lex_le(a@.subrange(i as int, a@.len() as int), b@.subrange(i as int, b@.len() as int)),
        decreases a@.len() - i,
    {
        let ghost sa = a@.subrange(i as int, a@.len() as int);
        let ghost sb = b@.subrange(i as int, b@.len() as int);
        if i == b.len() {
            return false;
        }
        let ca = a[i];
        let cb = b[i];
        assert(sa[0] == ca && sb[0] == cb);
        if ca < cb {
            return true;
        }
        if ca != cb {
            return false;
        }
        assert(sa.drop_first() =~= a@.subrange(i + 1, a@.len() as int));
        assert(sb.drop_first() =~= b@.subrange(i + 1, b@.len() as int));
        assert(a@.subrange(0, i + 1) =~= a@.subrange(0, i as int).push(ca));
        assert(b@.subrange(0, i + 1) =~= b@.subrange(0, i as int).push(cb));
        i = i + 1;
    }
    true
}

/// Sorts texts in lexicographic order; the result holds the same texts.
pub fn sort_texts(items: Vec<String>) -> (r: Vec<String>)
    ensures
        text_views(r@).to_multiset() == text_views(items@).to_multiset(),
        lex_sorted(text_views(r@)),
{
    let mut sorted: Vec<String> = Vec::new();
    let mut keys: Vec<Vec<char>> = Vec::new();
    let mut k: usize = 0;
    assert(text_views(items@.subrange(0, 0)) =~= Seq::<Seq<char>>::empty());
    assert(text_views(sorted@) =~= Seq::<Seq<char>>::empty());
    while k < items.len()
        invariant
            0 <= k <= items@.len(),
            sorted@.len() == keys@.len(),
            forall|i: int| 0 <= i < keys@.len() ==> #[trigger] keys@[i]@ == sorted@[i]@,
            text_views(sorted@).to_multiset() == text_views(items@.subrange(0, k as int)).to_multiset(),
            lex_sorted(text_views(sorted@)),
        decreases items@.len() - k,
    {
        let item = items[k].clone();
        let key = chars_of(item.as_str());
        let ghost old_sorted = text_views(sorted@);
        let mut p: usize = 0;
        while p < sorted.len()
            invariant
                0 <= p <= sorted@.len(),
                sorted@.len() == keys@.len(),
                forall|i: int| 0 <= i < keys@.len() ==> #[trigger] keys@[i]@ == sorted@[i]@,
                old_sorted == text_views(sorted@),
                forall|i: int| 0 <= i < p ==> lex_le(#[trigger] old_sorted[i], key@),
            ensures
                0 <= p <= sorted@.len(),
                forall|i: int| 0 <= i < p ==> lex_le(#[trigger] old_sorted[i], key@),
                p < sorted@.len() ==> !lex_le(old_sorted[p as int], key@),
            decreases sorted@.len() - p,
        {
            if !lex_le_exec(&keys[p], &key) {
                break;
            }
            p = p + 1;
        }
        proof {
            if p < old_sorted.len() {
                lemma_lex_total(old_sorted[p as int], key@);
            }
        }
        sorted.insert(p, item);
        keys.insert(p, key);
        let ghost new_sorted = text_views(sorted@);
        proof {
            assert(new_sorted =~= old_sorted.insert(p as int, item@));
            assert(text_views(items@.subrange(0, k + 1)) =~= text_views(items@.subrange(0, k as int)).push(item@));
            vstd::seq_lib::to_multiset_build(
                text_views(items@.subrange(0, k as int)),
                item@,
            );
            assert forall|i: int, j: int| 0 <= i < j < new_sorted.len() implies lex_le(
                #[trigger] new_sorted[i],
                #[trigger] new_sorted[j],
            ) by {
                if j < p {
                } else if j == p {
                    assert(new_sorted[i] == old_sorted[i]);
                } else if i < p {
                    assert(new_sorted[i] == old_sorted[i]);
                    assert(new_sorted[j] == old_sorted[j - 1]);
                } else if i == p {
                    assert(new_sorted[j] == old_sorted[j - 1]);
                    if p + 1 < j {
                        lemma_lex_trans(key@, old_sorted[p as int], old_sorted[j - 1]);
                    }
                } else {
                    assert(new_sorted[i] == old_sorted[i - 1]);
                    assert(new_sorted[j] == old_sorted[j - 1]);
                }
            }
            assert forall|i: int| 0 <= i < keys@.len() implies #[trigger] keys@[i]@ == sorted@[i]@ by {
                assert(sorted@[i]@ == new_sorted[i]);
            }
        }
        k = k + 1;
    }
    assert(items@.subrange(0, items@.len() as int) =~= items@);
    sorted
}

} // verus!
