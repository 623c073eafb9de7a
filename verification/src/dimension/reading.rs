//! Readers for the text renderings of a dimension: they recover the numbers
//! and exponents from the text, and the lemmas here show that reading a
//! rendering gives back what was rendered.

use vstd::prelude::*;

use super::text::{
    decimal, digit_char, digits, exponent_sep, exponent_term, exponent_text, join_term, unit_sep,
    unit_term, unit_text,
};
use super::Exponents;

verus! {

/// `c` is one of the ASCII digits `0`..`9`.
pub open spec fn is_digit(c: char) -> bool {
    48 <= c as int <= 57
}

/// The value of a string of decimal digits, most significant first (the
/// empty string reads as 0).
pub open spec fn digits_value(s: Seq<char>) -> int
    decreases s.len(),
{
    if s.len() == 0 {
        0
    } else {
        digits_value(s.drop_last()) * 10 + (s.last() as int - 48)
    }
}

/// The value of a decimal integer text: an optional leading `-`, then
/// decimal digits.
pub open spec fn parse_decimal(s: Seq<char>) -> int {
    if s.len() > 0 && s[0] == '-' {
        -digits_value(s.drop_first())
    } else {
        digits_value(s)
    }
}

/// The character of a digit has the code of `0` plus the digit.
proof fn lemma_digit_char(d: int)
    requires
        0 <= d < 10,
    ensures
        digit_char(d) as int == 48 + d,
{
}

/// The digits of `n` are ASCII digits, at least one of them, and they read
/// back as `n`.
pub proof fn lemma_digits(n: nat)
    ensures
        digits(n).len() > 0,
        forall|i: int| 0 <= i < digits(n).len() ==> is_digit(#[trigger] digits(n)[i]),
        digits_value(digits(n)) == n,
    decreases n,
{
    if n < 10 {
        lemma_digit_char(n as int);
        assert(digits(n).drop_last() =~= Seq::<char>::empty());
        assert(digits_value(digits(n)) == digits_value(Seq::<char>::empty()) * 10 + (n as int));
    } else {
        lemma_digits(n / 10);
        lemma_digit_char((n % 10) as int);
        assert(digits(n).drop_last() =~= digits(n / 10));
        assert(digits(n).last() == digit_char((n % 10) as int));
        assert(digits_value(digits(n)) == digits_value(digits(n / 10)) * 10 + (n % 10));
    }
}

/// The decimal text of `v` is non-empty, starts with `-` exactly when `v` is
/// negative, is otherwise made of ASCII digits, and reads back as `v`.
pub proof fn lemma_decimal(v: int)
    ensures
        decimal(v).len() > 0,
        (decimal(v)[0] == '-') <==> v < 0,
        forall|i: int|
            0 <= i < decimal(v).len() ==> is_digit(#[trigger] decimal(v)[i]) || (i == 0
                && decimal(v)[i] == '-'),
        parse_decimal(decimal(v)) == v,
{
    if v < 0 {
        lemma_digits((-v) as nat);
        assert(decimal(v).drop_first() =~= digits((-v) as nat));
        assert forall|i: int| 0 <= i < decimal(v).len() implies is_digit(#[trigger] decimal(v)[i])
            || (i == 0 && decimal(v)[i] == '-') by {
            if i > 0 {
                assert(decimal(v)[i] == digits((-v) as nat)[i - 1]);
            }
        }
    } else {
        lemma_digits(v as nat);
        assert(is_digit(decimal(v)[0]));
    }
}

/// Splits `s` at every occurrence of `c`: the pieces between the
/// separators, in order (`k` separators give `k + 1` pieces).
pub open spec fn split(s: Seq<char>, c: char) -> Seq<Seq<char>>
    decreases s.len(),
{
    if s.len() == 0 {
        seq![Seq::<char>::empty()]
    } else {
        let r = split(s.drop_last(), c);
        if s.last() == c {
            r.push(Seq::<char>::empty())
        } else {
            r.update(r.len() - 1, r.last().push(s.last()))
        }
    }
}

/// Splitting always gives at least one piece.
proof fn lemma_split_len(s: Seq<char>, c: char)
    ensures
        split(s, c).len() >= 1,
    decreases s.len(),
{
    if s.len() > 0 {
        lemma_split_len(s.drop_last(), c);
    }
}

/// A text without the separator is a single piece.
pub proof fn lemma_split_no_sep(s: Seq<char>, c: char)
    requires
        !s.contains(c),
    ensures
        split(s, c) == seq![s],
    decreases s.len(),
{
    if s.len() > 0 {
        let t = s.drop_last();
        assert(!t.contains(c)) by {
            if t.contains(c) {
                let k = choose|k: int| 0 <= k < t.len() && t[k] == c;
                assert(s[k] == c);
            }
        }
        lemma_split_no_sep(t, c);
        assert(s.last() != c) by {
            assert(s[s.len() - 1] == s.last());
        }
        assert(t.push(s.last()) =~= s);
        assert(split(s, c) =~= seq![s]);
    } else {
        assert(s =~= Seq::<char>::empty());
        assert(split(s, c) =~= seq![s]);
    }
}

/// Appending a separator and a piece without the separator adds that piece.
pub proof fn lemma_split_append(acc: Seq<char>, c: char, t: Seq<char>)
    requires
        !t.contains(c),
    ensures
        split(acc + seq![c] + t, c) == split(acc, c).push(t),
    decreases t.len(),
{
    let s = acc + seq![c] + t;
    if t.len() == 0 {
        assert(s.drop_last() =~= acc);
        assert(s.last() == c);
        assert(t =~= Seq::<char>::empty());
    } else {
        let t0 = t.drop_last();
        assert(!t0.contains(c)) by {
            if t0.contains(c) {
                let k = choose|k: int| 0 <= k < t0.len() && t0[k] == c;
                assert(t[k] == c);
            }
        }
        lemma_split_append(acc, c, t0);
        assert(s.drop_last() =~= acc + seq![c] + t0);
        assert(s.last() == t.last());
        assert(t.last() != c) by {
            assert(t[t.len() - 1] == t.last());
        }
        lemma_split_len(acc, c);
        assert(t0.push(t.last()) =~= t);
        assert(split(s, c) =~= split(acc, c).push(t));
    }
}

/// Joining a non-empty term without the separator character `c` onto `acc`
/// with the separator `c` followed by `pre` adds one piece to the split of
/// the text: the term itself when `acc` is empty, `pre` and the term
/// otherwise.
pub proof fn lemma_join_step(acc: Seq<char>, t: Seq<char>, c: char, pre: Seq<char>, ts: Seq<
    Seq<char>,
>)
    requires
        t.len() > 0,
        !t.contains(c),
        !pre.contains(c),
        (acc.len() == 0) == (ts.len() == 0),
        acc.len() > 0 ==> split(acc, c) == ts,
    ensures
        join_term(acc, t, seq![c] + pre).len() > 0,
        split(join_term(acc, t, seq![c] + pre), c) == (if ts.len() == 0 {
            seq![t]
        } else {
            ts.push(pre + t)
        }),
{
    if acc.len() == 0 {
        lemma_split_no_sep(t, c);
    } else {
        let pt = pre + t;
        assert(!pt.contains(c)) by {
            if pt.contains(c) {
                let k = choose|k: int| 0 <= k < pt.len() && pt[k] == c;
                if k < pre.len() {
                    assert(pre[k] == c);
                } else {
                    assert(t[k - pre.len()] == c);
                }
            }
        }
        lemma_split_append(acc, c, pt);
        assert(acc + (seq![c] + pre) + t =~= acc + seq![c] + pt);
    }
}

/// `e` with the exponent at position `k` (0 = length, 1 = mass, 2 = time,
/// 3 = current, 4 = temperature, 5 = amount of substance, 6 = luminous
/// intensity) replaced by `v`; any other `k` leaves `e` unchanged.
pub open spec fn with_exponent(e: Exponents, k: int, v: int) -> Exponents {
    if k == 0 {
        Exponents { l: v, ..e }
    } else if k == 1 {
        Exponents { m: v, ..e }
    } else if k == 2 {
        Exponents { t: v, ..e }
    } else if k == 3 {
        Exponents { i: v, ..e }
    } else if k == 4 {
        Exponents { th: v, ..e }
    } else if k == 5 {
        Exponents { n: v, ..e }
    } else if k == 6 {
        Exponents { j: v, ..e }
    } else {
        e
    }
}

/// The position of the base dimension whose SI unit symbol is `name`
/// (m, kg, s, A, K, mol, cd), or -1 for any other text.
pub open spec fn unit_index(name: Seq<char>) -> int {
    if name == seq!['m'] {
        0
    } else if name == seq!['k', 'g'] {
        1
    } else if name == seq!['s'] {
        2
    } else if name == seq!['A'] {
        3
    } else if name == seq!['K'] {
        4
    } else if name == seq!['m', 'o', 'l'] {
        5
    } else if name == seq!['c', 'd'] {
        6
    } else {
        -1
    }
}

/// The position of the base dimension whose field name is `name`
/// (L, M, T, I, Th, N, J), or -1 for any other text.
pub open spec fn exponent_index(name: Seq<char>) -> int {
    if name == seq!['L'] {
        0
    } else if name == seq!['M'] {
        1
    } else if name == seq!['T'] {
        2
    } else if name == seq!['I'] {
        3
    } else if name == seq!['T', 'h'] {
        4
    } else if name == seq!['N'] {
        5
    } else if name == seq!['J'] {
        6
    } else {
        -1
    }
}

/// Reads one unit term: a symbol alone means exponent 1, a symbol followed
/// by `^` and a decimal number means that exponent.
pub open spec fn read_unit_term(e: Exponents, p: Seq<char>) -> Exponents {
    let q = split(p, '^');
    let v = if q.len() == 1 {
        1
    } else {
        parse_decimal(q[1])
    };
    with_exponent(e, unit_index(q[0]), v)
}

/// Reads the unit terms in order, starting from the dimensionless value.
pub open spec fn read_unit_terms(ps: Seq<Seq<char>>) -> Exponents
    decreases ps.len(),
{
    if ps.len() == 0 {
        Exponents::zero()
    } else {
        read_unit_term(read_unit_terms(ps.drop_last()), ps.last())
    }
}

/// Reads an SI unit string: its `·`-separated terms; the empty text is the
/// dimensionless value.
pub open spec fn read_unit_text(s: Seq<char>) -> Exponents {
    if s.len() == 0 {
        Exponents::zero()
    } else {
        read_unit_terms(split(s, '\u{b7}'))
    }
}

/// Reads one exponent term: an optional leading space, a field name, `=`
/// and a decimal number.
pub open spec fn read_exponent_term(e: Exponents, p: Seq<char>) -> Exponents {
    let p2 = if p.len() > 0 && p[0] == ' ' {
        p.drop_first()
    } else {
        p
    };
    let q = split(p2, '=');
    let v = if q.len() >= 2 {
        parse_decimal(q[1])
    } else {
        0
    };
    with_exponent(e, exponent_index(q[0]), v)
}

/// Reads the exponent terms in order, starting from the dimensionless
/// value.
pub open spec fn read_exponent_terms(ps: Seq<Seq<char>>) -> Exponents
    decreases ps.len(),
{
    if ps.len() == 0 {
        Exponents::zero()
    } else {
        read_exponent_term(read_exponent_terms(ps.drop_last()), ps.last())
    }
}

/// Reads an exponent listing: its `,`-separated terms; the empty text is
/// the dimensionless value.
pub open spec fn read_exponent_text(s: Seq<char>) -> Exponents {
    if s.len() == 0 {
        Exponents::zero()
    } else {
        read_exponent_terms(split(s, ','))
    }
}

/// A decimal text holds none of the characters that frame the terms.
proof fn lemma_decimal_free_of(v: int, c: char)
    requires
        c != '-',
        !is_digit(c),
    ensures
        !decimal(v).contains(c),
{
    lemma_decimal(v);
    if decimal(v).contains(c) {
        let k = choose|k: int| 0 <= k < decimal(v).len() && decimal(v)[k] == c;
        assert(is_digit(decimal(v)[k]) || (k == 0 && decimal(v)[k] == '-'));
    }
}

/// The concatenation of texts free of `c` is free of `c`.
proof fn lemma_concat_free_of(a: Seq<char>, b: Seq<char>, c: char)
    requires
        !a.contains(c),
        !b.contains(c),
    ensures
        !(a + b).contains(c),
{
    if (a + b).contains(c) {
        let k = choose|k: int| 0 <= k < (a + b).len() && (a + b)[k] == c;
        if k < a.len() {
            assert(a[k] == c);
        } else {
            assert(b[k - a.len()] == c);
        }
    }
}

/// Reading the unit term of a non-zero exponent sets that exponent.
proof fn lemma_read_unit_term(e: Exponents, v: int, sym: Seq<char>)
    requires
        v != 0,
        !sym.contains('^'),
    ensures
        read_unit_term(e, unit_term(v, sym)) == with_exponent(e, unit_index(sym), v),
{
    if v == 1 {
        lemma_split_no_sep(sym, '^');
    } else {
        lemma_decimal(v);
        lemma_decimal_free_of(v, '^');
        lemma_split_no_sep(sym, '^');
        lemma_split_append(sym, '^', decimal(v));
        assert(split(unit_term(v, sym), '^') == seq![sym].push(decimal(v)));
        assert(seq![sym].push(decimal(v))[1] == decimal(v));
        assert(seq![sym].push(decimal(v))[0] == sym);
    }
}

/// One step of building a unit string, followed by its split and its
/// reading.
proof fn lemma_unit_step(
    acc: Seq<char>,
    ts: Seq<Seq<char>>,
    v: int,
    sym: Seq<char>,
    part: Exponents,
) -> (ts2: Seq<Seq<char>>)
    requires
        (acc.len() == 0) == (ts.len() == 0),
        acc.len() > 0 ==> split(acc, '\u{b7}') == ts,
        read_unit_terms(ts) == part,
        sym.len() > 0,
        !sym.contains('^'),
        !sym.contains('\u{b7}'),
    ensures
        ({
            let acc2 = join_term(acc, unit_term(v, sym), unit_sep());
            &&& (acc2.len() == 0) == (ts2.len() == 0)
            &&& acc2.len() > 0 ==> split(acc2, '\u{b7}') == ts2
            &&& read_unit_terms(ts2) == (if v == 0 {
                part
            } else {
                with_exponent(part, unit_index(sym), v)
            })
        }),
{
    let t = unit_term(v, sym);
    if v == 0 {
        ts
    } else {
        assert(!t.contains('\u{b7}')) by {
            if v != 1 {
                lemma_decimal_free_of(v, '\u{b7}');
                assert(!seq!['^'].contains('\u{b7}')) by {
                    if seq!['^'].contains('\u{b7}') {
                        assert(seq!['^'][0] == '^');
                    }
                }
                lemma_concat_free_of(sym, seq!['^'], '\u{b7}');
                lemma_concat_free_of(sym + seq!['^'], decimal(v), '\u{b7}');
            }
        }
        assert(unit_sep() =~= seq!['\u{b7}'] + Seq::<char>::empty());
        lemma_join_step(acc, t, '\u{b7}', Seq::<char>::empty(), ts);
        lemma_read_unit_term(part, v, sym);
        let ts2 = if ts.len() == 0 {
            seq![t]
        } else {
            ts.push(Seq::<char>::empty() + t)
        };
        assert(Seq::<char>::empty() + t =~= t);
        assert(ts2.drop_last() =~= ts);
        assert(ts2.last() == t);
        ts2
    }
}

/// Reading the unit string of `e` gives back `e`.
pub proof fn lemma_unit_text_reads_back(e: Exponents)
    ensures
        read_unit_text(unit_text(e)) == e,
{
    let z = Exponents::zero();
    let s = unit_sep();
    let e1 = Exponents { l: e.l, ..z };
    let e2 = Exponents { m: e.m, ..e1 };
    let e3 = Exponents { t: e.t, ..e2 };
    let e4 = Exponents { i: e.i, ..e3 };
    let e5 = Exponents { th: e.th, ..e4 };
    let e6 = Exponents { n: e.n, ..e5 };
    assert(seq!['m'][0] == 'm' && seq!['s'][0] == 's' && seq!['A'][0] == 'A' && seq!['K'][0]
        == 'K' && seq!['k', 'g'][0] == 'k' && seq!['c', 'd'][0] == 'c');
    assert(seq!['m', 'o', 'l'].len() == 3 && seq!['m'].len() == 1 && seq!['k', 'g'].len() == 2);
    assert(unit_index(seq!['m']) == 0);
    assert(unit_index(seq!['k', 'g']) == 1);
    assert(unit_index(seq!['s']) == 2);
    assert(unit_index(seq!['A']) == 3);
    assert(unit_index(seq!['K']) == 4);
    assert(unit_index(seq!['m', 'o', 'l']) == 5);
    assert(unit_index(seq!['c', 'd']) == 6);
    let a0 = Seq::<char>::empty();
    let ts0 = Seq::<Seq<char>>::empty();
    assert(!seq!['m'].contains('^') && !seq!['m'].contains('\u{b7}')) by {
        assert(seq!['m'][0] == 'm');
    }
    let ts1 = lemma_unit_step(a0, ts0, e.l, seq!['m'], z);
    let a1 = join_term(a0, unit_term(e.l, seq!['m']), s);
    assert(!seq!['k', 'g'].contains('^') && !seq!['k', 'g'].contains('\u{b7}')) by {
        assert(seq!['k', 'g'][0] == 'k' && seq!['k', 'g'][1] == 'g');
    }
    let ts2 = lemma_unit_step(a1, ts1, e.m, seq!['k', 'g'], e1);
    let a2 = join_term(a1, unit_term(e.m, seq!['k', 'g']), s);
    assert(!seq!['s'].contains('^') && !seq!['s'].contains('\u{b7}')) by {
        assert(seq!['s'][0] == 's');
    }
    let ts3 = lemma_unit_step(a2, ts2, e.t, seq!['s'], e2);
    let a3 = join_term(a2, unit_term(e.t, seq!['s']), s);
    assert(!seq!['A'].contains('^') && !seq!['A'].contains('\u{b7}')) by {
        assert(seq!['A'][0] == 'A');
    }
    let ts4 = lemma_unit_step(a3, ts3, e.i, seq!['A'], e3);
    let a4 = join_term(a3, unit_term(e.i, seq!['A']), s);
    assert(!seq!['K'].contains('^') && !seq!['K'].contains('\u{b7}')) by {
        assert(seq!['K'][0] == 'K');
    }
    let ts5 = lemma_unit_step(a4, ts4, e.th, seq!['K'], e4);
    let a5 = join_term(a4, unit_term(e.th, seq!['K']), s);
    assert(!seq!['m', 'o', 'l'].contains('^') && !seq!['m', 'o', 'l'].contains('\u{b7}')) by {
        assert(seq!['m', 'o', 'l'][0] == 'm' && seq!['m', 'o', 'l'][1] == 'o' && seq![
            'm',
            'o',
            'l',
        ][2] == 'l');
    }
    let ts6 = lemma_unit_step(a5, ts5, e.n, seq!['m', 'o', 'l'], e5);
    let a6 = join_term(a5, unit_term(e.n, seq!['m', 'o', 'l']), s);
    assert(!seq!['c', 'd'].contains('^') && !seq!['c', 'd'].contains('\u{b7}')) by {
        assert(seq!['c', 'd'][0] == 'c' && seq!['c', 'd'][1] == 'd');
    }
    let ts7 = lemma_unit_step(a6, ts6, e.j, seq!['c', 'd'], e6);
}

/// Reading the exponent term of a non-zero exponent, with or without a
/// leading space, sets that exponent.
proof fn lemma_read_exponent_term(e: Exponents, v: int, name: Seq<char>)
    requires
        v != 0,
        name.len() > 0,
        name[0] != ' ',
        !name.contains('='),
    ensures
        read_exponent_term(e, exponent_term(v, name)) == with_exponent(
            e,
            exponent_index(name),
            v,
        ),
        read_exponent_term(e, seq![' '] + exponent_term(v, name)) == with_exponent(
            e,
            exponent_index(name),
            v,
        ),
{
    let t = exponent_term(v, name);
    lemma_decimal(v);
    lemma_decimal_free_of(v, '=');
    lemma_split_no_sep(name, '=');
    lemma_split_append(name, '=', decimal(v));
    assert(t == name + seq!['='] + decimal(v));
    assert(t[0] == name[0]);
    assert(split(t, '=') == seq![name].push(decimal(v)));
    assert(seq![name].push(decimal(v))[1] == decimal(v));
    assert(seq![name].push(decimal(v))[0] == name);
    assert((seq![' '] + t).drop_first() =~= t);
    assert((seq![' '] + t)[0] == ' ');
}

/// One step of building an exponent listing, followed by its split and its
/// reading.
proof fn lemma_exponent_step(
    acc: Seq<char>,
    ts: Seq<Seq<char>>,
    v: int,
    name: Seq<char>,
    part: Exponents,
) -> (ts2: Seq<Seq<char>>)
    requires
        (acc.len() == 0) == (ts.len() == 0),
        acc.len() > 0 ==> split(acc, ',') == ts,
        read_exponent_terms(ts) == part,
        name.len() > 0,
        name[0] != ' ',
        !name.contains('='),
        !name.contains(','),
    ensures
        ({
            let acc2 = join_term(acc, exponent_term(v, name), exponent_sep());
            &&& (acc2.len() == 0) == (ts2.len() == 0)
            &&& acc2.len() > 0 ==> split(acc2, ',') == ts2
            &&& read_exponent_terms(ts2) == (if v == 0 {
                part
            } else {
                with_exponent(part, exponent_index(name), v)
            })
        }),
{
    let t = exponent_term(v, name);
    if v == 0 {
        ts
    } else {
        assert(!t.contains(',')) by {
            lemma_decimal_free_of(v, ',');
            assert(!seq!['='].contains(',')) by {
                if seq!['='].contains(',') {
                    assert(seq!['='][0] == '=');
                }
            }
            lemma_concat_free_of(name, seq!['='], ',');
            lemma_concat_free_of(name + seq!['='], decimal(v), ',');
        }
        assert(!seq![' '].contains(',')) by {
            if seq![' '].contains(',') {
                assert(seq![' '][0] == ' ');
            }
        }
        assert(exponent_sep() =~= seq![','] + seq![' ']);
        lemma_join_step(acc, t, ',', seq![' '], ts);
        lemma_read_exponent_term(part, v, name);
        let ts2 = if ts.len() == 0 {
            seq![t]
        } else {
            ts.push(seq![' '] + t)
        };
        assert(ts2.drop_last() =~= ts);
        ts2
    }
}

/// A one-character name other than a space, `=` or `,` meets the conditions
/// of a term name.
proof fn lemma_name1(c: char)
    requires
        c != ' ' && c != '=' && c != ',',
    ensures
        seq![c].len() > 0,
        seq![c][0] != ' ',
        !seq![c].contains('='),
        !seq![c].contains(','),
{
    assert(seq![c][0] == c);
}

/// Reading the exponent listing of `e` gives back `e`.
pub proof fn lemma_exponent_text_reads_back(e: Exponents)
    ensures
        read_exponent_text(exponent_text(e)) == e,
{
    let z = Exponents::zero();
    let s = exponent_sep();
    let e1 = Exponents { l: e.l, ..z };
    let e2 = Exponents { m: e.m, ..e1 };
    let e3 = Exponents { t: e.t, ..e2 };
    let e4 = Exponents { i: e.i, ..e3 };
    let e5 = Exponents { th: e.th, ..e4 };
    let e6 = Exponents { n: e.n, ..e5 };
    assert(seq!['L'][0] == 'L' && seq!['M'][0] == 'M' && seq!['T'][0] == 'T' && seq!['I'][0]
        == 'I' && seq!['N'][0] == 'N' && seq!['J'][0] == 'J' && seq!['T', 'h'].len() == 2);
    assert(exponent_index(seq!['L']) == 0);
    assert(exponent_index(seq!['M']) == 1);
    assert(exponent_index(seq!['T']) == 2);
    assert(exponent_index(seq!['I']) == 3);
    assert(exponent_index(seq!['T', 'h']) == 4);
    assert(exponent_index(seq!['N']) == 5);
    assert(exponent_index(seq!['J']) == 6);
    let th = seq!['T', 'h'];
    assert(th[0] == 'T' && th[1] == 'h');
    assert(!th.contains('=') && !th.contains(',')) by {
        if th.contains('=') {
            let k = choose|k: int| 0 <= k < th.len() && th[k] == '=';
        }
        if th.contains(',') {
            let k = choose|k: int| 0 <= k < th.len() && th[k] == ',';
        }
    }
    lemma_name1('L');
    lemma_name1('M');
    lemma_name1('T');
    lemma_name1('I');
    lemma_name1('N');
    lemma_name1('J');
    let a0 = Seq::<char>::empty();
    let ts0 = Seq::<Seq<char>>::empty();
    let ts1 = lemma_exponent_step(a0, ts0, e.l, seq!['L'], z);
    let a1 = join_term(a0, exponent_term(e.l, seq!['L']), s);
    let ts2 = lemma_exponent_step(a1, ts1, e.m, seq!['M'], e1);
    let a2 = join_term(a1, exponent_term(e.m, seq!['M']), s);
    let ts3 = lemma_exponent_step(a2, ts2, e.t, seq!['T'], e2);
    let a3 = join_term(a2, exponent_term(e.t, seq!['T']), s);
    let ts4 = lemma_exponent_step(a3, ts3, e.i, seq!['I'], e3);
    let a4 = join_term(a3, exponent_term(e.i, seq!['I']), s);
    let ts5 = lemma_exponent_step(a4, ts4, e.th, th, e4);
    let a5 = join_term(a4, exponent_term(e.th, th), s);
    let ts6 = lemma_exponent_step(a5, ts5, e.n, seq!['N'], e5);
    let a6 = join_term(a5, exponent_term(e.n, seq!['N']), s);
    let ts7 = lemma_exponent_step(a6, ts6, e.j, seq!['J'], e6);
}

} // verus!
