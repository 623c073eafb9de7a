//! Text renderings of a dimension: the SI unit string (`m·s^-1`) and the
//! exponent listing (`L=1, T=-1`).

use vstd::prelude::*;

use super::{Dimension, Exponents};

verus! {

/// The character of the decimal digit `d` (`0 <= d < 10`).
pub open spec fn digit_char(d: int) -> char {
    ((48 + d) as u8) as char
}

/// The decimal digits of the natural number `n`, most significant first,
/// without leading zeros (`0` is `"0"`).
pub open spec fn digits(n: nat) -> Seq<char>
    decreases n,
{
    if n < 10 {
        seq![digit_char(n as int)]
    } else {
        digits(n / 10).push(digit_char((n % 10) as int))
    }
}

/// The decimal text of the integer `v`: a `-` sign for a negative value,
/// then the digits of its magnitude.
pub open spec fn decimal(v: int) -> Seq<char> {
    if v < 0 {
        seq!['-'] + digits((-v) as nat)
    } else {
        digits(v as nat)
    }
}

/// Appends `term` to `acc`, with `sep` between them when both are non-empty;
/// an empty term leaves `acc` unchanged.
pub open spec fn join_term(acc: Seq<char>, term: Seq<char>, sep: Seq<char>) -> Seq<char> {
    if term.len() == 0 {
        acc
    } else if acc.len() == 0 {
        term
    } else {
        acc + sep + term
    }
}

/// The unit term of one base dimension with exponent `v` and unit symbol
/// `symbol`: nothing for exponent 0, the bare symbol for exponent 1, and
/// `symbol^v` otherwise.
pub open spec fn unit_term(v: int, symbol: Seq<char>) -> Seq<char> {
    if v == 0 {
        seq![]
    } else if v == 1 {
        symbol
    } else {
        symbol + seq!['^'] + decimal(v)
    }
}

/// The exponent term of one base dimension named `name` with exponent `v`:
/// nothing for exponent 0 and `name=v` otherwise.
pub open spec fn exponent_term(v: int, name: Seq<char>) -> Seq<char> {
    if v == 0 {
        seq![]
    } else {
        name + seq!['='] + decimal(v)
    }
}

/// The separator between unit terms: the middle dot `·`.
pub open spec fn unit_sep() -> Seq<char> {
    seq!['\u{b7}']
}

/// The separator between exponent terms: `", "`.
pub open spec fn exponent_sep() -> Seq<char> {
    seq![',', ' ']
}

/// The SI unit string of `d`: the unit terms of the non-zero exponents in the
/// order m, kg, s, A, K, mol, cd, joined by `·`; empty for a dimensionless
/// value.
pub open spec fn unit_text(d: Exponents) -> Seq<char> {
    let s = unit_sep();
    let a0 = join_term(seq![], unit_term(d.l, seq!['m']), s);
    let a1 = join_term(a0, unit_term(d.m, seq!['k', 'g']), s);
    let a2 = join_term(a1, unit_term(d.t, seq!['s']), s);
    let a3 = join_term(a2, unit_term(d.i, seq!['A']), s);
    let a4 = join_term(a3, unit_term(d.th, seq!['K']), s);
    let a5 = join_term(a4, unit_term(d.n, seq!['m', 'o', 'l']), s);
    join_term(a5, unit_term(d.j, seq!['c', 'd']), s)
}

/// The exponent listing of `d`: `name=value` for each non-zero exponent in
/// the order L, M, T, I, Th, N, J, joined by `", "`; empty for a
/// dimensionless value.
pub open spec fn exponent_text(d: Exponents) -> Seq<char> {
    let s = exponent_sep();
    let a0 = join_term(seq![], exponent_term(d.l, seq!['L']), s);
    let a1 = join_term(a0, exponent_term(d.m, seq!['M']), s);
    let a2 = join_term(a1, exponent_term(d.t, seq!['T']), s);
    let a3 = join_term(a2, exponent_term(d.i, seq!['I']), s);
    let a4 = join_term(a3, exponent_term(d.th, seq!['T', 'h']), s);
    let a5 = join_term(a4, exponent_term(d.n, seq!['N']), s);
    join_term(a5, exponent_term(d.j, seq!['J']), s)
}

/// Appends the character `c` to `s` (`String::push`).
#[verifier::external_body]
fn string_push(s: &mut String, c: char)
    ensures
        final(s)@ == old(s)@.push(c),
{
    s.push(c);
}

/// Appends the text `t` to `s` (`String::push_str`).
#[verifier::external_body]
fn string_push_str(s: &mut String, t: &str)
    ensures
        final(s)@ == old(s)@ + t@,
{
    s.push_str(t);
}

/// Returns the character of the decimal digit `d`.
fn digit(d: u32) -> (c: char)
    requires
        d < 10,
    ensures
        c == digit_char(d as int),
{
    ((48 + d) as u8) as char
}

/// Appends the decimal digits of `n` to `buf`.
fn push_digits(buf: &mut String, n: u32)
    ensures
        final(buf)@ == old(buf)@ + digits(n as nat),
    decreases n,
{
    if n >= 10 {
        push_digits(buf, n / 10);
    }
    string_push(buf, digit(n % 10));
    proof {
        if n >= 10 {
            assert(old(buf)@ + digits(n as nat) =~= old(buf)@ + digits((n / 10) as nat) + seq![
                digit_char((n % 10) as int),
            ]);
        }
    }
}

/// Appends the decimal text of `v` to `buf`.
fn push_decimal(buf: &mut String, v: i32)
    ensures
        final(buf)@ == old(buf)@ + decimal(v as int),
{
    if v < 0 {
        string_push(buf, '-');
        let mag: u32 = (-(v as i64)) as u32;
        push_digits(buf, mag);
        assert(final(buf)@ =~= old(buf)@ + decimal(v as int));
    } else {
        push_digits(buf, v as u32);
    }
}

/// Appends the separator `sep` to `buf` unless `buf` is empty.
fn push_separator(buf: &mut String, sep: &str)
    ensures
        old(buf)@.len() == 0 ==> final(buf)@ == old(buf)@,
        old(buf)@.len() != 0 ==> final(buf)@ == old(buf)@ + sep@,
{
    if !buf.as_str().is_empty() {
        string_push_str(buf, sep);
    }
}

/// Appends the unit term of exponent `v` with unit symbol `symbol`.
fn push_unit_term(buf: &mut String, v: i32, symbol: &str)
    requires
        symbol@.len() > 0,
    ensures
        final(buf)@ == join_term(old(buf)@, unit_term(v as int, symbol@), unit_sep()),
{
    if v != 0 {
        proof {
            reveal_strlit("\u{b7}");
        }
        push_separator(buf, "\u{b7}");
        let ghost before = buf@;
        string_push_str(buf, symbol);
        if v != 1 {
            string_push(buf, '^');
            push_decimal(buf, v);
            assert(buf@ =~= before + (symbol@ + seq!['^'] + decimal(v as int)));
        }
        assert(final(buf)@ =~= join_term(old(buf)@, unit_term(v as int, symbol@), unit_sep()));
    }
}

/// Appends the exponent term of exponent `v` named `name`.
fn push_exponent_term(buf: &mut String, v: i32, name: &str)
    requires
        name@.len() > 0,
    ensures
        final(buf)@ == join_term(old(buf)@, exponent_term(v as int, name@), exponent_sep()),
{
    if v != 0 {
        proof {
            reveal_strlit(", ");
        }
        push_separator(buf, ", ");
        let ghost before = buf@;
        string_push_str(buf, name);
        string_push(buf, '=');
        push_decimal(buf, v);
        assert(buf@ =~= before + (name@ + seq!['='] + decimal(v as int)));
        assert(final(buf)@ =~= join_term(old(buf)@, exponent_term(v as int, name@), exponent_sep()));
    }
}

impl Dimension {
    /// Formats the dimension as an SI unit string, e.g. `m·s^-1` for a
    /// velocity and `m·kg·s^-2` for a force.
    ///
    /// - Exponent 1 -> bare symbol (e.g. `m`).
    /// - Any other non-zero exponent -> symbol with exponent (e.g. `s^-2`).
    /// - Zero exponent -> symbol omitted.
    /// - Symbols are joined with `·`; a dimensionless value gives `""`.
    pub fn unit_string(&self) -> (s: String)
        ensures
            s@ == unit_text(self@),
    {
        let mut buf = String::new();
        proof {
            reveal_strlit("m");
            reveal_strlit("kg");
            reveal_strlit("s");
            reveal_strlit("A");
            reveal_strlit("K");
            reveal_strlit("mol");
            reveal_strlit("cd");
            assert("m"@ =~= seq!['m']);
            assert("kg"@ =~= seq!['k', 'g']);
            assert("s"@ =~= seq!['s']);
            assert("A"@ =~= seq!['A']);
            assert("K"@ =~= seq!['K']);
            assert("mol"@ =~= seq!['m', 'o', 'l']);
            assert("cd"@ =~= seq!['c', 'd']);
        }
        let ghost e = self@;
        let ghost sep = unit_sep();
        push_unit_term(&mut buf, self.L, "m");
        let ghost a0 = buf@;
        assert(a0 == join_term(seq![], unit_term(e.l, seq!['m']), sep));
        push_unit_term(&mut buf, self.M, "kg");
        let ghost a1 = buf@;
        assert(a1 == join_term(a0, unit_term(e.m, seq!['k', 'g']), sep));
        push_unit_term(&mut buf, self.T, "s");
        let ghost a2 = buf@;
        assert(a2 == join_term(a1, unit_term(e.t, seq!['s']), sep));
        push_unit_term(&mut buf, self.I, "A");
        let ghost a3 = buf@;
        assert(a3 == join_term(a2, unit_term(e.i, seq!['A']), sep));
        push_unit_term(&mut buf, self.Th, "K");
        let ghost a4 = buf@;
        assert(a4 == join_term(a3, unit_term(e.th, seq!['K']), sep));
        push_unit_term(&mut buf, self.N, "mol");
        let ghost a5 = buf@;
        assert(a5 == join_term(a4, unit_term(e.n, seq!['m', 'o', 'l']), sep));
        push_unit_term(&mut buf, self.J, "cd");
        assert(buf@ == join_term(a5, unit_term(e.j, seq!['c', 'd']), sep));
        buf
    }

    /// Lists the non-zero exponents by field name, e.g. `L=1, T=-1` for a
    /// velocity; a dimensionless value gives `""`.
    pub fn exponent_string(&self) -> (s: String)
        ensures
            s@ == exponent_text(self@),
    {
        let mut buf = String::new();
        proof {
            reveal_strlit("L");
            reveal_strlit("M");
            reveal_strlit("T");
            reveal_strlit("I");
            reveal_strlit("Th");
            reveal_strlit("N");
            reveal_strlit("J");
            assert("L"@ =~= seq!['L']);
            assert("M"@ =~= seq!['M']);
            assert("T"@ =~= seq!['T']);
            assert("I"@ =~= seq!['I']);
            assert("Th"@ =~= seq!['T', 'h']);
            assert("N"@ =~= seq!['N']);
            assert("J"@ =~= seq!['J']);
        }
        let ghost e = self@;
        let ghost sep = exponent_sep();
        push_exponent_term(&mut buf, self.L, "L");
        let ghost a0 = buf@;
        assert(a0 == join_term(seq![], exponent_term(e.l, seq!['L']), sep));
        push_exponent_term(&mut buf, self.M, "M");
        let ghost a1 = buf@;
        assert(a1 == join_term(a0, exponent_term(e.m, seq!['M']), sep));
        push_exponent_term(&mut buf, self.T, "T");
        let ghost a2 = buf@;
        assert(a2 == join_term(a1, exponent_term(e.t, seq!['T']), sep));
        push_exponent_term(&mut buf, self.I, "I");
        let ghost a3 = buf@;
        assert(a3 == join_term(a2, exponent_term(e.i, seq!['I']), sep));
        push_exponent_term(&mut buf, self.Th, "Th");
        let ghost a4 = buf@;
        assert(a4 == join_term(a3, exponent_term(e.th, seq!['T', 'h']), sep));
        push_exponent_term(&mut buf, self.N, "N");
        let ghost a5 = buf@;
        assert(a5 == join_term(a4, exponent_term(e.n, seq!['N']), sep));
        push_exponent_term(&mut buf, self.J, "J");
        assert(buf@ == join_term(a5, exponent_term(e.j, seq!['J']), sep));
        buf
    }
}

} // verus!
