//! Text helpers shared by the policy modules: comparing names, keeping lists
//! of names as value sets, lexicographic order and decimal rendering.
//!
//! Every contract here speaks of the characters of a string (`s@`), never of
//! its bytes.

use vstd::prelude::*;

verus! {

/// `String::push` of the standard library: the string grows by exactly the
/// given character, appended at its end.
pub assume_specification[ String::push ](s: &mut String, c: char)
    ensures
        final(s)@ == old(s)@.push(c),
;

/// The texts of a list of strings, in order.
pub open spec fn texts(v: Seq<String>) -> Seq<Seq<char>> {
    Seq::new(v.len(), |i: int| v[i]@)
}

/// The texts of a list of strings, as a value set.
pub open spec fn text_set(v: Seq<String>) -> Set<Seq<char>> {
    Set::new(|t: Seq<char>| exists|i: int| 0 <= i < v.len() && (#[trigger] v[i])@ == t)
}

/// The predicate "differs from `x`", used to describe removal.
pub open spec fn differs_from(x: Seq<char>) -> spec_fn(Seq<char>) -> bool {
    |t: Seq<char>| t != x
}

/// `t` ends with `suffix`.
pub open spec fn is_suffix(t: Seq<char>, suffix: Seq<char>) -> bool {
    suffix.len() <= t.len() && t.subrange(t.len() - suffix.len(), t.len() as int) == suffix
}

/// A host name matches a rule when it is the rule itself or lies below it:
/// the name ends with the rule and a dot stands directly before that ending.
/// The empty rule matches only the empty name.
pub open spec fn domain_matches(name: Seq<char>, rule: Seq<char>) -> bool {
    name == rule || (rule.len() > 0 && name.len() > rule.len() && is_suffix(name, rule)
        && name[name.len() - rule.len() - 1] == '.')
}

/// Some rule of the list matches the host name.
pub open spec fn any_domain_matches(rules: Seq<String>, name: Seq<char>) -> bool {
    exists|i: int| 0 <= i < rules.len() && domain_matches(name, (#[trigger] rules[i])@)
}

/// Some rule of the set matches the host name.
pub open spec fn domain_set_matches(rules: Set<Seq<char>>, name: Seq<char>) -> bool {
    exists|rule: Seq<char>| #[trigger] rules.contains(rule) && domain_matches(name, rule)
}

/// Whether a rule of a list matches depends on the rules as a set only.
pub proof fn lemma_domain_rules_as_set(rules: Seq<String>, name: Seq<char>)
    ensures
        any_domain_matches(rules, name) == domain_set_matches(text_set(rules), name),
{
    if any_domain_matches(rules, name) {
        let i = choose|i: int| 0 <= i < rules.len() && domain_matches(name, (#[trigger] rules[i])@);
        assert(text_set(rules).contains(rules[i]@));
    }
    if domain_set_matches(text_set(rules), name) {
        let rule = choose|rule: Seq<char>| #[trigger]
            text_set(rules).contains(rule) && domain_matches(name, rule);
        let i = choose|i: int| 0 <= i < rules.len() && (#[trigger] rules[i])@ == rule;
        assert(domain_matches(name, rules[i]@));
    }
}

/// Strict lexicographic order by code point, decided from position `i` on,
/// for two texts that agree before `i`.
pub open spec fn text_lt_from(a: Seq<char>, b: Seq<char>, i: int) -> bool
    decreases a.len() - i,
{
    if i < 0 || i >= b.len() {
        false
    } else if i >= a.len() {
        true
    } else if a[i] != b[i] {
        (a[i] as int) < (b[i] as int)
    } else {
        text_lt_from(a, b, i + 1)
    }
}

/// Strict lexicographic order on texts, by code point.
pub open spec fn text_lt(a: Seq<char>, b: Seq<char>) -> bool {
    text_lt_from(a, b, 0)
}

/// The character of a decimal digit.
pub open spec fn digit_char(d: nat) -> char {
    if d == 0 {
        '0'
    } else if d == 1 {
        '1'
    } else if d == 2 {
        '2'
    } else if d == 3 {
        '3'
    } else if d == 4 {
        '4'
    } else if d == 5 {
        '5'
    } else if d == 6 {
        '6'
    } else if d == 7 {
        '7'
    } else if d == 8 {
        '8'
    } else {
        '9'
    }
}

/// The decimal numeral of `n`, without sign or leading zeros.
pub open spec fn decimal(n: nat) -> Seq<char>
    decreases n,
{
    if n < 10 {
        seq![digit_char(n)]
    } else {
        decimal(n / 10).push(digit_char(n % 10))
    }
}

/// A decimal digit.
pub open spec fn is_digit(c: char) -> bool {
    '0' <= c <= '9'
}

/// The number a digit stands for.
pub open spec fn digit_value(c: char) -> nat {
    (c as int - '0' as int) as nat
}

/// The number a string of digits stands for.
pub open spec fn numeral_value(s: Seq<char>) -> nat
    decreases s.len(),
{
    if s.len() == 0 {
        0
    } else {
        numeral_value(s.drop_last()) * 10 + digit_value(s.last())
    }
}

/// A numeral: one or more digits, with a leading zero only in `0` itself.
pub open spec fn is_numeral(s: Seq<char>) -> bool {
    &&& s.len() >= 1
    &&& forall|i: int| 0 <= i < s.len() ==> is_digit(#[trigger] s[i])
    &&& s.len() > 1 ==> s[0] != '0'
}

/// A numeral and its number determine each other: the numeral of a number
/// is a numeral and stands for that number.
pub proof fn lemma_decimal_value(n: nat)
    ensures
        is_numeral(decimal(n)),
        numeral_value(decimal(n)) == n,
        n >= 10 ==> decimal(n).len() >= 2,
    decreases n,
{
    if n < 10 {
        assert(decimal(n).drop_last() =~= Seq::<char>::empty());
        assert(numeral_value(decimal(n).drop_last()) == 0);
        assert(digit_value(digit_char(n)) == n);
    } else {
        lemma_decimal_value(n / 10);
        let front = decimal(n / 10);
        let d = digit_char(n % 10);
        assert(decimal(n) == front.push(d));
        assert(decimal(n).drop_last() =~= front);
        assert(digit_value(d) == n % 10);
        assert(is_digit(d));
        assert forall|i: int| 0 <= i < decimal(n).len() implies is_digit(
            #[trigger] decimal(n)[i],
        ) by {
            if i < front.len() {
                assert(decimal(n)[i] == front[i]);
            }
        }
        assert(decimal(n)[0] == front[0]);
        if n / 10 < 10 {
            assert(front[0] == digit_char(n / 10));
        }
    }
}

/// A string of digits that starts with a digit other than zero stands for a
/// number other than zero.
proof fn lemma_leading_digit(s: Seq<char>)
    requires
        s.len() >= 1,
        forall|i: int| 0 <= i < s.len() ==> is_digit(#[trigger] s[i]),
        s[0] != '0',
    ensures
        numeral_value(s) >= 1,
    decreases s.len(),
{
    if s.len() > 1 {
        lemma_leading_digit(s.drop_last());
    } else {
        assert(s.drop_last() =~= Seq::<char>::empty());
        assert(numeral_value(s.drop_last()) == 0);
    }
}

/// A numeral is the numeral of the number it stands for: no number is
/// written in two ways.
pub proof fn lemma_numeral_is_decimal(s: Seq<char>)
    requires
        is_numeral(s),
    ensures
        decimal(numeral_value(s)) == s,
    decreases s.len(),
{
    let last = s.last();
    let front = s.drop_last();
    assert(is_digit(last));
    assert(digit_char(digit_value(last)) == last);
    if s.len() == 1 {
        assert(front =~= Seq::<char>::empty());
        assert(numeral_value(front) == 0);
        assert(seq![last] =~= s);
    } else {
        assert(front[0] == s[0]);
        assert forall|i: int| 0 <= i < front.len() implies is_digit(#[trigger] front[i]) by {
            assert(front[i] == s[i]);
        }
        lemma_leading_digit(front);
        lemma_numeral_is_decimal(front);
        let n = numeral_value(s);
        assert(n == numeral_value(front) * 10 + digit_value(last));
        assert(n / 10 == numeral_value(front) && n % 10 == digit_value(last));
        assert(front.push(last) =~= s);
    }
}

/// Different numbers have different numerals.
pub proof fn lemma_decimal_injective(a: nat, b: nat)
    requires
        decimal(a) == decimal(b),
    ensures
        a == b,
{
    lemma_decimal_value(a);
    lemma_decimal_value(b);
}

/// Two texts that agree before `i` and on which the order is decided from
/// `i` on cannot be ordered both ways.
pub proof fn lemma_text_lt_asymmetric_from(a: Seq<char>, b: Seq<char>, i: int)
    requires
        0 <= i,
    ensures
        !(text_lt_from(a, b, i) && text_lt_from(b, a, i)),
    decreases a.len() - i,
{
    if i < a.len() && i < b.len() && a[i] == b[i] {
        lemma_text_lt_asymmetric_from(a, b, i + 1);
    }
}

/// Two texts that agree before `i` are equal or ordered one way from `i` on.
pub proof fn lemma_text_lt_total_from(a: Seq<char>, b: Seq<char>, i: int)
    requires
        0 <= i <= a.len(),
        i <= b.len(),
        a.subrange(0, i) == b.subrange(0, i),
    ensures
        a == b || text_lt_from(a, b, i) || text_lt_from(b, a, i),
    decreases a.len() - i,
{
    if i < a.len() && i < b.len() {
        if a[i] == b[i] {
            assert(a.subrange(0, i + 1) =~= a.subrange(0, i).push(a[i]));
            assert(b.subrange(0, i + 1) =~= b.subrange(0, i).push(b[i]));
            lemma_text_lt_total_from(a, b, i + 1);
            assert(text_lt_from(a, b, i) == text_lt_from(a, b, i + 1));
            assert(text_lt_from(b, a, i) == text_lt_from(b, a, i + 1));
        } else {
            assert(text_lt_from(a, b, i) || text_lt_from(b, a, i));
        }
    } else if i == a.len() && i == b.len() {
        assert(a =~= a.subrange(0, i));
        assert(b =~= b.subrange(0, i));
    } else if i == a.len() {
        assert(text_lt_from(a, b, i));
    } else {
        assert(text_lt_from(b, a, i));
    }
}

/// Transitivity of the order from position `i` on, for three texts that
/// agree before `i`.
pub proof fn lemma_text_lt_transitive_from(a: Seq<char>, b: Seq<char>, c: Seq<char>, i: int)
    requires
        0 <= i,
        text_lt_from(a, b, i),
        text_lt_from(b, c, i),
    ensures
        text_lt_from(a, c, i),
    decreases a.len() - i,
{
    if i < a.len() && i < b.len() && i < c.len() && a[i] == b[i] && b[i] == c[i] {
        lemma_text_lt_transitive_from(a, b, c, i + 1);
    }
}

/// The lexicographic order is a strict total order on texts: no text comes
/// before itself, two different texts are ordered exactly one way, and the
/// order is transitive.
pub proof fn lemma_text_lt_strict_total(a: Seq<char>, b: Seq<char>, c: Seq<char>)
    ensures
        !text_lt(a, a),
        !(text_lt(a, b) && text_lt(b, a)),
        a != b ==> text_lt(a, b) || text_lt(b, a),
        text_lt(a, b) && text_lt(b, c) ==> text_lt(a, c),
{
    lemma_text_lt_asymmetric_from(a, a, 0);
    lemma_text_lt_asymmetric_from(a, b, 0);
    assert(a.subrange(0, 0) == b.subrange(0, 0));
    lemma_text_lt_total_from(a, b, 0);
    if text_lt(a, b) && text_lt(b, c) {
        lemma_text_lt_transitive_from(a, b, c, 0);
    }
}

/// The characters of a string slice, one by one.
pub fn chars_of(s: &str) -> (v: Vec<char>)
    ensures
        v@ == s@,
{
    let mut v: Vec<char> = Vec::new();
    for c in it: s.chars()
        invariant
            v@ == it.seq().take(it.index() as int),
            it.seq() == s@,
    {
        v.push(c);
    }
    v
}

/// The string made of the given characters.
pub fn string_of(v: &Vec<char>) -> (s: String)
    ensures
        s@ == v@,
{
    let mut s = String::new();
    let mut i: usize = 0;
    while i < v.len()
        invariant
            i <= v.len(),
            s@ == v@.subrange(0, i as int),
        decreases v.len() - i,
    {
        s.push(v[i]);
        i += 1;
    }
    s
}

/// Whether two string slices hold the same text.
pub fn str_eq(a: &str, b: &str) -> (r: bool)
    ensures
        r == (a@ == b@),
{
    let x = a.to_owned();
    let y = b.to_owned();
    x == y
}

/// A copy of the list.
pub fn copy_list(v: &Vec<String>) -> (r: Vec<String>)
    ensures
        r@ == v@,
{
    let mut out: Vec<String> = Vec::new();
    let mut i: usize = 0;
    while i < v.len()
        invariant
            i <= v.len(),
            out@ == v@.take(i as int),
        decreases v.len() - i,
    {
        out.push(v[i].clone());
        assert(out@ =~= v@.take(i + 1));
        i += 1;
    }
    assert(v@.take(v.len() as int) =~= v@);
    out
}

/// Whether the list holds the text `x`.
pub fn contains_text(v: &Vec<String>, x: &str) -> (r: bool)
    ensures
        r == text_set(v@).contains(x@),
        r == texts(v@).contains(x@),
{
    let mut i: usize = 0;
    while i < v.len()
        invariant
            i <= v.len(),
            forall|j: int| 0 <= j < i ==> (#[trigger] v[j])@ != x@,
        decreases v.len() - i,
    {
        if str_eq(v[i].as_str(), x) {
            assert(texts(v@)[i as int] == x@);
            return true;
        }
        i += 1;
    }
    assert forall|j: int| 0 <= j < texts(v@).len() implies texts(v@)[j] != x@ by {
        assert(v[j]@ != x@);
    }
    false
}

/// The list without its repetitions: every text of it, once.
pub fn distinct(v: &Vec<String>) -> (r: Vec<String>)
    ensures
        text_set(r@) == text_set(v@),
        texts(r@).no_duplicates(),
{
    let mut out: Vec<String> = Vec::new();
    let mut i: usize = 0;
    assert(text_set(out@) =~= text_set(v@.take(0)));
    while i < v.len()
        invariant
            i <= v.len(),
            text_set(out@) == text_set(v@.take(i as int)),
            texts(out@).no_duplicates(),
        decreases v.len() - i,
    {
        let ghost before = out@;
        insert_text(&mut out, v[i].clone());
        proof {
            let a = v@.take(i as int);
            let b = v@.take(i + 1);
            assert forall|t: Seq<char>| text_set(b).contains(t) == text_set(a).insert(
                v@[i as int]@,
            ).contains(t) by {
                if text_set(b).contains(t) {
                    let j = choose|j: int| 0 <= j < b.len() && (#[trigger] b[j])@ == t;
                    if j < i {
                        assert(a[j]@ == t);
                    }
                }
                if text_set(a).insert(v@[i as int]@).contains(t) {
                    if t == v@[i as int]@ {
                        assert(b[i as int]@ == t);
                    } else {
                        let j = choose|j: int| 0 <= j < a.len() && (#[trigger] a[j])@ == t;
                        assert(b[j]@ == t);
                    }
                }
            }
            assert(text_set(b) =~= text_set(a).insert(v@[i as int]@));
        }
        i += 1;
    }
    assert(v@.take(v.len() as int) =~= v@);
    out
}

/// Adds `x` to a list kept as a value set: a text that is already there is
/// not added again.
pub fn insert_text(v: &mut Vec<String>, x: String)
    ensures
        text_set(final(v)@) == text_set(old(v)@).insert(x@),
        texts(old(v)@).contains(x@) ==> final(v)@ == old(v)@,
        !texts(old(v)@).contains(x@) ==> final(v)@ == old(v)@.push(x),
        texts(old(v)@).no_duplicates() ==> texts(final(v)@).no_duplicates(),
{
    let ghost before = v@;
    if !contains_text(v, x.as_str()) {
        v.push(x);
        assert forall|t: Seq<char>| text_set(v@).contains(t) == text_set(before).insert(
            x@,
        ).contains(t) by {
            if text_set(v@).contains(t) {
                let i = choose|i: int| 0 <= i < v@.len() && (#[trigger] v@[i])@ == t;
                if i < before.len() {
                    assert(before[i]@ == t);
                }
            }
            if text_set(before).insert(x@).contains(t) {
                if t == x@ {
                    assert(v@[before.len() as int]@ == t);
                } else {
                    let i = choose|i: int| 0 <= i < before.len() && (#[trigger] before[i])@ == t;
                    assert(v@[i]@ == t);
                }
            }
        }
        assert(text_set(v@) =~= text_set(before).insert(x@));
        assert(texts(v@) =~= texts(before).push(x@));
        proof {
            if texts(before).no_duplicates() {
                assert forall|i: int, j: int|
                    0 <= i < texts(v@).len() && 0 <= j < texts(v@).len() && i != j implies texts(
                    v@,
                )[i] != texts(v@)[j] by {
                    if i < before.len() && j < before.len() {
                        assert(texts(before)[i] != texts(before)[j]);
                    } else if i < before.len() {
                        assert(texts(before)[i] == texts(v@)[i]);
                    } else {
                        assert(texts(before)[j] == texts(v@)[j]);
                    }
                }
            }
        }
    } else {
        assert(text_set(v@) =~= text_set(before).insert(x@));
    }
}

/// Removes every occurrence of the text `x` from the list and keeps the
/// other entries in their order.
pub fn remove_text(v: &mut Vec<String>, x: &str)
    ensures
        texts(final(v)@) == texts(old(v)@).filter(differs_from(x@)),
        text_set(final(v)@) == text_set(old(v)@).remove(x@),
        !texts(old(v)@).contains(x@) ==> texts(final(v)@) == texts(old(v)@),
        texts(old(v)@).no_duplicates() ==> texts(final(v)@).no_duplicates(),
{
    let ghost before = v@;
    let ghost keep = differs_from(x@);
    let mut out: Vec<String> = Vec::new();
    let mut i: usize = 0;
    assert(texts(before.take(0)) =~= Seq::<Seq<char>>::empty());
    while i < v.len()
        invariant
            i <= v.len(),
            v@ == before,
            keep == differs_from(x@),
            texts(out@) == texts(before.take(i as int)).filter(keep),
        decreases v.len() - i,
    {
        let ghost done = texts(before.take(i as int));
        proof {
            assert(texts(before.take(i + 1)) =~= done.push(before[i as int]@));
            done.lemma_filter_push(before[i as int]@, keep);
        }
        if !str_eq(v[i].as_str(), x) {
            let ghost prev = out@;
            out.push(v[i].clone());
            assert(texts(out@) =~= texts(prev).push(before[i as int]@));
        }
        i += 1;
    }
    assert(before.take(before.len() as int) == before);
    *v = out;
    proof {
        lemma_filter_texts(before, v@, x@);
    }
}

/// What removing a text means for the value set and for a list without
/// duplicates.
pub proof fn lemma_filter_texts(before: Seq<String>, after: Seq<String>, x: Seq<char>)
    requires
        texts(after) == texts(before).filter(differs_from(x)),
    ensures
        text_set(after) == text_set(before).remove(x),
        !texts(before).contains(x) ==> texts(after) == texts(before),
        texts(before).no_duplicates() ==> texts(after).no_duplicates(),
{
    let keep = differs_from(x);
    let a = texts(after);
    let b = texts(before);
    broadcast use vstd::seq_lib::group_filter_ensures;

    assert forall|t: Seq<char>| text_set(after).contains(t) == text_set(before).remove(
        x,
    ).contains(t) by {
        if text_set(after).contains(t) {
            let i = choose|i: int| 0 <= i < after.len() && (#[trigger] after[i])@ == t;
            assert(a[i] == t);
            assert(a.contains(t));
            b.lemma_filter_contains_rev(keep, t);
            let j = choose|j: int| 0 <= j < b.len() && b[j] == t;
            assert(before[j]@ == t);
            assert(keep(a[i]));
        }
        if text_set(before).remove(x).contains(t) {
            let j = choose|j: int| 0 <= j < before.len() && (#[trigger] before[j])@ == t;
            assert(b[j] == t);
            assert(keep(b[j]));
            assert(a.contains(b[j]));
            let i = choose|i: int| 0 <= i < a.len() && a[i] == t;
            assert(after[i]@ == t);
        }
    }
    assert(text_set(after) =~= text_set(before).remove(x));
    if !b.contains(x) {
        lemma_filter_keeps_all(b, keep);
    }
    if b.no_duplicates() {
        lemma_filter_no_duplicates(b, keep);
    }
}

/// A filter that every entry passes changes nothing.
pub proof fn lemma_filter_keeps_all<A>(s: Seq<A>, pred: spec_fn(A) -> bool)
    requires
        forall|i: int| 0 <= i < s.len() ==> pred(#[trigger] s[i]),
    ensures
        s.filter(pred) == s,
    decreases s.len(),
{
    reveal(Seq::filter);
    if s.len() > 0 {
        lemma_filter_keeps_all(s.drop_last(), pred);
        assert(s.drop_last().push(s.last()) =~= s);
    }
}

/// Filtering a list without duplicates leaves no duplicates.
pub proof fn lemma_filter_no_duplicates<A>(s: Seq<A>, pred: spec_fn(A) -> bool)
    requires
        s.no_duplicates(),
    ensures
        s.filter(pred).no_duplicates(),
    decreases s.len(),
{
    reveal(Seq::filter);
    if s.len() > 0 {
        let front = s.drop_last();
        lemma_filter_no_duplicates(front, pred);
        broadcast use vstd::seq_lib::group_filter_ensures;

        if pred(s.last()) {
            let f = front.filter(pred);
            assert forall|i: int| 0 <= i < f.len() implies f[i] != s.last() by {
                assert(f.contains(f[i]));
                front.lemma_filter_contains_rev(pred, f[i]);
                let j = choose|j: int| 0 <= j < front.len() && front[j] == f[i];
                assert(s[j] == f[i]);
            }
        }
    }
}

/// Whether `a` comes strictly before `b` in lexicographic order.
pub fn text_less(a: &str, b: &str) -> (r: bool)
    ensures
        r == text_lt(a@, b@),
{
    let x = chars_of(a);
    let y = chars_of(b);
    let mut i: usize = 0;
    while i < x.len() && i < y.len()
        invariant
            i <= x.len(),
            i <= y.len(),
            x@ == a@,
            y@ == b@,
            text_lt(a@, b@) == text_lt_from(a@, b@, i as int),
        decreases x.len() - i,
    {
        let ca: char = x[i];
        let cb: char = y[i];
        if ca != cb {
            return ca < cb;
        }
        i += 1;
    }
    i < y.len()
}

/// Whether the host name matches the rule: the same text, or a name below
/// the rule.
pub fn matches_domain(name: &str, rule: &str) -> (r: bool)
    ensures
        r == domain_matches(name@, rule@),
{
    let n = chars_of(name);
    let p = chars_of(rule);
    if n.len() < p.len() {
        return false;
    }
    let offset: usize = n.len() - p.len();
    let mut i: usize = 0;
    while i < p.len()
        invariant
            i <= p.len(),
            offset + p.len() == n.len(),
            n@ == name@,
            p@ == rule@,
            forall|j: int| 0 <= j < i ==> n@[offset + j] == p@[j],
        decreases p.len() - i,
    {
        if n[offset + i] != p[i] {
            assert(n@.subrange(offset as int, n@.len() as int)[i as int] != p@[i as int]);
            return false;
        }
        i += 1;
    }
    assert(n@.subrange(offset as int, n@.len() as int) =~= p@);
    if offset == 0 {
        assert(n@ =~= p@);
        true
    } else {
        p.len() > 0 && n[offset - 1] == '.'
    }
}

/// Whether some rule of the list matches the host name.
pub fn matches_any_domain(rules: &Vec<String>, name: &str) -> (r: bool)
    ensures
        r == any_domain_matches(rules@, name@),
{
    let mut i: usize = 0;
    while i < rules.len()
        invariant
            i <= rules.len(),
            forall|j: int| 0 <= j < i ==> !domain_matches(name@, (#[trigger] rules[j])@),
        decreases rules.len() - i,
    {
        if matches_domain(name, rules[i].as_str()) {
            return true;
        }
        i += 1;
    }
    false
}

/// The character of the decimal digit `d`, where `d` is below ten; the
/// character of nine for any other `d`.
pub fn digit_of(d: u8) -> (c: char)
    ensures
        c == digit_char(d as nat),
{
    if d == 0 {
        '0'
    } else if d == 1 {
        '1'
    } else if d == 2 {
        '2'
    } else if d == 3 {
        '3'
    } else if d == 4 {
        '4'
    } else if d == 5 {
        '5'
    } else if d == 6 {
        '6'
    } else if d == 7 {
        '7'
    } else if d == 8 {
        '8'
    } else {
        '9'
    }
}

/// Appends the decimal numeral of `n` to `out`.
pub fn push_decimal(out: &mut String, n: u64)
    ensures
        final(out)@ == old(out)@ + decimal(n as nat),
    decreases n,
{
    if n >= 10 {
        push_decimal(out, n / 10);
    }
    out.push(digit_of((n % 10) as u8));
    proof {
        if n < 10 {
            assert(old(out)@.push(digit_char(n as nat)) =~= old(out)@ + decimal(n as nat));
        } else {
            assert((old(out)@ + decimal((n / 10) as nat)).push(digit_char((n % 10) as nat))
                =~= old(out)@ + decimal(n as nat));
        }
    }
}

/// The decimal numeral of `n`.
pub fn to_decimal(n: u64) -> (s: String)
    ensures
        s@ == decimal(n as nat),
{
    let mut s = String::new();
    push_decimal(&mut s, n);
    assert(Seq::<char>::empty() + decimal(n as nat) =~= decimal(n as nat));
    s
}

/// Appends the text of `t` to `out`.
pub fn push_text(out: &mut String, t: &str)
    ensures
        final(out)@ == old(out)@ + t@,
{
    let v = chars_of(t);
    let mut i: usize = 0;
    assert(old(out)@ + t@.subrange(0, 0) =~= old(out)@);
    while i < v.len()
        invariant
            i <= v.len(),
            v@ == t@,
            out@ == old(out)@ + t@.subrange(0, i as int),
        decreases v.len() - i,
    {
        out.push(v[i]);
        assert(t@.subrange(0, i + 1) =~= t@.subrange(0, i as int).push(t@[i as int]));
        assert(out@ =~= old(out)@ + t@.subrange(0, i + 1));
        i += 1;
    }
    assert(t@.subrange(0, v.len() as int) =~= t@);
}

} // verus!
