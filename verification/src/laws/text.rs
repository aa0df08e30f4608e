//! Text: what is written is read back, what is put together comes apart.

use crate::text::{
    ascii_lower, char_at, char_at_from, cut, digit, digit_char, digits_value, drop_back, drop_front,
    find_text, find_text_from, gather, has_text, is_space, just, last_index, lemma_scan, lines_from,
    lines_of, lower_char, not_space, number, numeral, occurs_at, octet_pieces_from, octet_pieces_of,
    pieces_from, pieces_of, scan, scan_octet, signed_numeral, space, trimmed, utf8_len, width,
    without_cr, words_from, words_of,
};
use vstd::prelude::*;

verus! {

// ---------------------------------------------------------------------
// Numbers
// ---------------------------------------------------------------------

/// Every digit is the character that the number writes at its place: ten
/// figures, then the letters from `a` on.
pub proof fn law_digits(d: nat)
    requires
        d < 16,
    ensures
        digit(digit_char(d), 16) == Some(d),
        d < 10 ==> digit_char(d) as u32 == 48 + d,
        d >= 10 ==> digit_char(d) as u32 == 97 + (d - 10),
        forall|radix: nat| #[trigger] digit(digit_char(d), radix) is Some <==> d < radix,
{
}

/// Digits are read alike whether small or large, and nothing but figures and
/// the letters of the base is one.
pub proof fn law_only_digits_are_digits(c: char, radix: nat)
    requires
        radix <= 16,
    ensures
        digit(c, radix) == digit(lower_char(c), radix),
        digit(c, radix) is Some <==> exists|d: nat| d < radix && #[trigger] digit_char(d)
            == lower_char(c),
        digit(c, radix) matches Some(d) ==> d < radix && digit_char(d) == lower_char(c),
{
    if digit(c, radix) is Some {
        let d = digit(c, radix)->0;
        assert(digit_char(d) == lower_char(c));
    }
    assert forall|d: nat| d < radix && #[trigger] digit_char(d) == lower_char(c) implies digit(
        c,
        radix,
    ) is Some by {
        law_digits(d);
    }
}

proof fn lemma_numeral(n: nat, radix: nat)
    requires
        2 <= radix <= 16,
    ensures
        numeral(n, radix).len() > 0,
        digits_value(numeral(n, radix), radix) == Some(n),
        forall|i: int|
            0 <= i < numeral(n, radix).len() ==> digit(#[trigger] numeral(n, radix)[i], radix)
                is Some,
    decreases n,
{
    if n < radix {
        law_digits(n);
        let s = numeral(n, radix);
        assert(s.drop_last() =~= Seq::empty());
        assert(s.last() == digit_char(n));
        assert(digits_value(s.drop_last(), radix) == Some(0nat));
        assert(0 * radix + n == n) by (nonlinear_arith);
    } else {
        assert(n / radix < n) by (nonlinear_arith)
            requires
                radix >= 2,
                n >= radix,
        ;
        lemma_numeral(n / radix, radix);
        assert(n % radix < radix) by (nonlinear_arith)
            requires
                radix >= 2,
        ;
        law_digits(n % radix);
        let s = numeral(n, radix);
        assert(s.drop_last() =~= numeral(n / radix, radix));
        assert((n / radix) * radix + n % radix == n) by (nonlinear_arith)
            requires
                radix >= 2,
        ;
        assert forall|i: int| 0 <= i < s.len() implies digit(#[trigger] s[i], radix) is Some by {
            if i < s.len() - 1 {
                assert(s[i] == numeral(n / radix, radix)[i]);
            }
        }
    }
}

/// A number that was written is read back, in every base, also with a plus
/// sign before it; one beyond the limit is not read.
pub proof fn law_written_numbers_are_read(n: nat, radix: nat, max: nat)
    requires
        2 <= radix <= 16,
    ensures
        number(numeral(n, radix), radix, max) == if n <= max {
            Some(n)
        } else {
            None
        },
        number(seq!['+'] + numeral(n, radix), radix, max) == number(numeral(n, radix), radix, max),
{
    lemma_numeral(n, radix);
    let s = numeral(n, radix);
    assert(digit(s[0], radix) is Some);
    assert(s[0] != '+');
    let t = seq!['+'] + s;
    assert(t.drop_first() =~= s);
}

/// Nothing but a sign and digits is read as a number.
pub proof fn law_only_digits_are_read(s: Seq<char>, radix: nat, max: nat, i: int)
    requires
        number(s, radix, max) is Some,
        0 <= i < s.len(),
    ensures
        digit(s[i], radix) is Some || (i == 0 && s[0] == '+'),
        number(s, radix, max)->0 <= max,
        s.len() >= 1,
        s.len() == 1 ==> s[0] != '+',
{
    let d = if s[0] == '+' {
        s.drop_first()
    } else {
        s
    };
    lemma_all_digits(d, radix);
    if s[0] == '+' {
        if i > 0 {
            assert(d[i - 1] == s[i]);
        }
    }
}

proof fn lemma_all_digits(s: Seq<char>, radix: nat)
    requires
        digits_value(s, radix) is Some,
    ensures
        forall|i: int| 0 <= i < s.len() ==> digit(#[trigger] s[i], radix) is Some,
    decreases s.len(),
{
    if s.len() > 0 {
        lemma_all_digits(s.drop_last(), radix);
        assert forall|i: int| 0 <= i < s.len() implies digit(#[trigger] s[i], radix) is Some by {
            if i < s.len() - 1 {
                assert(s[i] == s.drop_last()[i]);
            }
        }
    }
}

/// Zeros before a number change nothing.
pub proof fn law_leading_zeros_do_not_count(s: Seq<char>, radix: nat, max: nat)
    requires
        s.len() > 0,
        s[0] != '+',
        radix >= 1,
    ensures
        number(seq!['0'] + s, radix, max) == number(s, radix, max),
{
    let t = seq!['0'] + s;
    assert(t[0] == '0');
    lemma_zero_first(s, radix);
}

proof fn lemma_zero_first(s: Seq<char>, radix: nat)
    requires
        radix >= 1,
    ensures
        digits_value(seq!['0'] + s, radix) == digits_value(s, radix),
    decreases s.len(),
{
    let t = seq!['0'] + s;
    if s.len() == 0 {
        assert(t =~= seq!['0']);
        assert(t.drop_last() =~= Seq::empty());
        assert(digit('0', radix) == Some(0nat));
        assert(0 * radix + 0 == 0) by (nonlinear_arith);
        assert(digits_value(t.drop_last(), radix) == Some(0nat));
        assert(t.last() == '0');
        assert(digits_value(t, radix) == Some(0nat));
    } else {
        lemma_zero_first(s.drop_last(), radix);
        assert(t.drop_last() =~= seq!['0'] + s.drop_last());
        assert(t.last() == s.last());
    }
}

/// A word of 32 bits as eight hexadecimal digits.
pub open spec fn hex8(w: nat) -> Seq<char> {
    seq![
        digit_char(w / 0x1000_0000 % 16),
        digit_char(w / 0x100_0000 % 16),
        digit_char(w / 0x10_0000 % 16),
        digit_char(w / 0x1_0000 % 16),
        digit_char(w / 0x1000 % 16),
        digit_char(w / 0x100 % 16),
        digit_char(w / 0x10 % 16),
        digit_char(w % 16),
    ]
}

proof fn lemma_digits_push(s: Seq<char>, d: nat, v: nat)
    requires
        digits_value(s, 16) == Some(v),
        d < 16,
    ensures
        digits_value(s.push(digit_char(d)), 16) == Some((v * 16 + d) as nat),
{
    law_digits(d);
    let t = s.push(digit_char(d));
    assert(t.drop_last() =~= s);
}

proof fn lemma_sixteenths(w: nat)
    requires
        w <= 0xffff_ffff,
    ensures
        w / 0x1000_0000 == w / 0x1000_0000 % 16,
        w / 0x100_0000 == w / 0x1000_0000 * 16 + w / 0x100_0000 % 16,
        w / 0x10_0000 == w / 0x100_0000 * 16 + w / 0x10_0000 % 16,
        w / 0x1_0000 == w / 0x10_0000 * 16 + w / 0x1_0000 % 16,
        w / 0x1000 == w / 0x1_0000 * 16 + w / 0x1000 % 16,
        w / 0x100 == w / 0x1000 * 16 + w / 0x100 % 16,
        w / 0x10 == w / 0x100 * 16 + w / 0x10 % 16,
        w == w / 0x10 * 16 + w % 16,
{
    assert(w / 0x1000_0000 == w / 0x100_0000 / 16);
    assert(w / 0x100_0000 == w / 0x10_0000 / 16);
    assert(w / 0x10_0000 == w / 0x1_0000 / 16);
    assert(w / 0x1_0000 == w / 0x1000 / 16);
    assert(w / 0x1000 == w / 0x100 / 16);
    assert(w / 0x100 == w / 0x10 / 16);
}

/// Eight hexadecimal digits that write a word are read as that word.
#[verifier::spinoff_prover]
pub proof fn law_words_are_read_back(w: nat)
    requires
        w <= 0xffff_ffff,
    ensures
        number(hex8(w), 16, 0xffff_ffff) == Some(w),
{
    lemma_sixteenths(w);
    lemma_eight_digits(
        w / 0x1000_0000 % 16,
        w / 0x100_0000 % 16,
        w / 0x10_0000 % 16,
        w / 0x1_0000 % 16,
        w / 0x1000 % 16,
        w / 0x100 % 16,
        w / 0x10 % 16,
        w % 16,
    );
}

proof fn lemma_eight_digits(a: nat, b: nat, c: nat, d: nat, f: nat, g: nat, h: nat, k: nat)
    requires
        a < 16,
        b < 16,
        c < 16,
        d < 16,
        f < 16,
        g < 16,
        h < 16,
        k < 16,
    ensures
        ({
            let v = (((((((a * 16 + b) * 16 + c) * 16 + d) * 16 + f) * 16 + g) * 16 + h) * 16 + k);
            number(
                seq![
                    digit_char(a),
                    digit_char(b),
                    digit_char(c),
                    digit_char(d),
                    digit_char(f),
                    digit_char(g),
                    digit_char(h),
                    digit_char(k),
                ],
                16,
                0xffff_ffff,
            ) == Some(v)
        }),
{
    let e: Seq<char> = Seq::empty();
    lemma_digits_push(e, a, 0);
    let v1 = a;
    let s1 = e.push(digit_char(a));
    lemma_digits_push(s1, b, v1);
    let v2 = v1 * 16 + b;
    let s2 = s1.push(digit_char(b));
    lemma_digits_push(s2, c, v2);
    let v3 = v2 * 16 + c;
    let s3 = s2.push(digit_char(c));
    lemma_digits_push(s3, d, v3);
    let v4 = v3 * 16 + d;
    let s4 = s3.push(digit_char(d));
    lemma_digits_push(s4, f, v4);
    let v5 = v4 * 16 + f;
    let s5 = s4.push(digit_char(f));
    lemma_digits_push(s5, g, v5);
    let v6 = v5 * 16 + g;
    let s6 = s5.push(digit_char(g));
    lemma_digits_push(s6, h, v6);
    let v7 = v6 * 16 + h;
    let s7 = s6.push(digit_char(h));
    lemma_digits_push(s7, k, v7);
    let s8 = s7.push(digit_char(k));
    let all = seq![
        digit_char(a),
        digit_char(b),
        digit_char(c),
        digit_char(d),
        digit_char(f),
        digit_char(g),
        digit_char(h),
        digit_char(k),
    ];
    assert(s8 =~= all);
    law_digits(a);
    assert(all[0] != '+');
}

/// A negative number is its amount behind a minus sign, and no number that is
/// not negative has one.
pub proof fn law_signs(n: nat)
    ensures
        signed_numeral(n as int) == numeral(n, 10),
        n > 0 ==> signed_numeral(-(n as int)) == seq!['-'] + numeral(n, 10),
        numeral(n, 10)[0] != '-',
{
    lemma_numeral(n, 10);
    assert(digit(numeral(n, 10)[0], 10) is Some);
}

// ---------------------------------------------------------------------
// Splitting
// ---------------------------------------------------------------------

/// White space is what separates words: the blank, the tab, line ends and
/// their kin, and no letter, figure or mark of ASCII.
pub proof fn law_white_space_of_ascii(c: char)
    requires
        (c as u32) < 0x80,
    ensures
        is_space(c) <==> c == ' ' || c == '\t' || c == '\n' || c == '\r' || c as u32 == 0xb || c as u32
            == 0xc,
{
}

proof fn lemma_scan_at(s: Seq<char>, p: spec_fn(char) -> bool, i: int, e: int)
    requires
        0 <= i <= e <= s.len(),
        forall|k: int| i <= k < e ==> !p(#[trigger] s[k]),
        e < s.len() ==> p(s[e]),
    ensures
        scan(s, p, i) == e,
{
    lemma_scan(s, p, i);
    let r = scan(s, p, i);
    if r < e {
        assert(p(s[r]));
    } else if r > e {
        assert(!p(s[e]));
    }
}

/// What stands before and after the first separator, put together again, is
/// the text; and a text put together so is cut there.
pub proof fn law_cut_undoes_joining(a: Seq<char>, c: char, b: Seq<char>)
    requires
        !a.contains(c),
    ensures
        cut(a + seq![c] + b, c) == Some((a, b)),
        cut(a, c) is None,
{
    let s = a + seq![c] + b;
    assert forall|k: int| 0 <= k < a.len() implies !just(c)(#[trigger] s[k]) by {
        assert(s[k] == a[k]);
        assert(a.contains(a[k]));
    }
    lemma_scan_at(s, just(c), 0, a.len() as int);
    assert(s.subrange(0, a.len() as int) =~= a);
    assert(s.subrange((a.len() + 1) as int, s.len() as int) =~= b);
    assert forall|k: int| 0 <= k < a.len() implies !just(c)(#[trigger] a[k]) by {
        assert(a.contains(a[k]));
    }
    lemma_scan_at(a, just(c), 0, a.len() as int);
}

/// The pieces with the separator between them.
pub open spec fn put_together(v: Seq<Seq<char>>, c: char) -> Seq<char>
    decreases v.len(),
{
    if v.len() == 0 {
        Seq::empty()
    } else if v.len() == 1 {
        v[0]
    } else {
        v[0] + seq![c] + put_together(v.drop_first(), c)
    }
}

proof fn lemma_pieces_shift(s: Seq<char>, c: char, i: int)
    requires
        0 <= i <= s.len(),
    ensures
        pieces_from(s, c, i) == pieces_of(s.skip(i), c),
    decreases s.len() - i,
{
    lemma_pieces_shift_by(s, s.skip(i), c, i, 0);
}

proof fn lemma_pieces_shift_by(s: Seq<char>, t: Seq<char>, c: char, off: int, j: int)
    requires
        0 <= off <= s.len(),
        t == s.skip(off),
        0 <= j <= t.len(),
    ensures
        pieces_from(s, c, off + j) == pieces_from(t, c, j),
    decreases t.len() - j,
{
    lemma_scan(t, just(c), j);
    let e = scan(t, just(c), j);
    assert forall|k: int| off + j <= k < off + e implies !just(c)(#[trigger] s[k]) by {
        assert(s[k] == t[k - off]);
    }
    if e < t.len() {
        assert(s[off + e] == t[e]);
    }
    lemma_scan_at(s, just(c), off + j, off + e);
    assert(s.subrange(off + j, off + e) =~= t.subrange(j, e));
    if e < t.len() {
        lemma_pieces_shift_by(s, t, c, off, e + 1);
    }
}

/// Pieces that were put together with a separator, which none of them holds,
/// come apart again.
pub proof fn law_pieces_come_apart(v: Seq<Seq<char>>, c: char)
    requires
        v.len() > 0,
        forall|i: int| 0 <= i < v.len() ==> !(#[trigger] v[i]).contains(c),
    ensures
        pieces_of(put_together(v, c), c) == v,
    decreases v.len(),
{
    let s = put_together(v, c);
    let a = v[0];
    assert(!a.contains(c));
    if v.len() == 1 {
        assert forall|k: int| 0 <= k < s.len() implies !just(c)(#[trigger] s[k]) by {
            assert(a.contains(a[k]));
        }
        lemma_scan_at(s, just(c), 0, s.len() as int);
        assert(s.subrange(0, s.len() as int) =~= s);
        assert(seq![s] =~= v);
    } else {
        let rest = v.drop_first();
        assert forall|i: int| 0 <= i < rest.len() implies !(#[trigger] rest[i]).contains(c) by {
            assert(rest[i] == v[i + 1]);
        }
        law_pieces_come_apart(rest, c);
        assert forall|k: int| 0 <= k < a.len() implies !just(c)(#[trigger] s[k]) by {
            assert(s[k] == a[k]);
            assert(a.contains(a[k]));
        }
        lemma_scan_at(s, just(c), 0, a.len() as int);
        assert(s.subrange(0, a.len() as int) =~= a);
        lemma_pieces_shift(s, c, (a.len() + 1) as int);
        assert(s.skip((a.len() + 1) as int) =~= put_together(rest, c));
        assert(seq![a] + rest =~= v);
    }
}

/// The pieces of a text are what stands before the first separator and the
/// pieces of what stands after it.
pub proof fn law_first_piece(a: Seq<char>, c: char, rest: Seq<char>)
    requires
        !a.contains(c),
    ensures
        pieces_of(a + seq![c] + rest, c) == seq![a] + pieces_of(rest, c),
{
    let s = a + seq![c] + rest;
    assert forall|k: int| 0 <= k < a.len() implies !just(c)(#[trigger] s[k]) by {
        assert(s[k] == a[k]);
        assert(a.contains(a[k]));
    }
    lemma_scan_at(s, just(c), 0, a.len() as int);
    assert(s.subrange(0, a.len() as int) =~= a);
    lemma_pieces_shift(s, c, (a.len() + 1) as int);
    assert(s.skip((a.len() + 1) as int) =~= rest);
}

proof fn lemma_words_shift_by(s: Seq<char>, t: Seq<char>, off: int, j: int)
    requires
        0 <= off <= s.len(),
        t == s.skip(off),
        0 <= j <= t.len(),
    ensures
        words_from(s, off + j) == words_from(t, j),
    decreases t.len() - j,
{
    if j < t.len() {
        lemma_scan(t, not_space(), j);
        let a = scan(t, not_space(), j);
        lemma_scan(t, space(), a);
        let e = scan(t, space(), a);
        assert forall|k: int| off + j <= k < off + a implies !not_space()(#[trigger] s[k]) by {
            assert(s[k] == t[k - off]);
        }
        if a < t.len() {
            assert(s[off + a] == t[a]);
        }
        lemma_scan_at(s, not_space(), off + j, off + a);
        assert forall|k: int| off + a <= k < off + e implies !space()(#[trigger] s[k]) by {
            assert(s[k] == t[k - off]);
        }
        if e < t.len() {
            assert(s[off + e] == t[e]);
        }
        lemma_scan_at(s, space(), off + a, off + e);
        if a < t.len() {
            assert(not_space()(t[a]));
            assert(e > a) by {
                if e == a {
                    assert(space()(t[e]));
                }
            }
            assert(s.subrange(off + a, off + e) =~= t.subrange(a, e));
            lemma_words_shift_by(s, t, off, e);
        }
    }
}

/// Words with white space between them, however much and of whatever kind,
/// come apart again: the words of a text that begins with a word and some
/// white space are that word and the words of the rest.
pub proof fn law_words_come_apart(w: Seq<char>, gap: Seq<char>, rest: Seq<char>)
    requires
        w.len() > 0,
        forall|i: int| 0 <= i < w.len() ==> !is_space(#[trigger] w[i]),
        gap.len() > 0,
        forall|i: int| 0 <= i < gap.len() ==> is_space(#[trigger] gap[i]),
    ensures
        words_of(w + gap + rest) == seq![w] + words_of(rest),
        words_of(gap + rest) == words_of(rest),
        words_of(w) == seq![w],
{
    let s = w + gap + rest;
    lemma_scan_at(s, not_space(), 0, 0);
    assert forall|k: int| 0 <= k < w.len() implies !space()(#[trigger] s[k]) by {
        assert(s[k] == w[k]);
    }
    assert(s[w.len() as int] == gap[0]);
    lemma_scan_at(s, space(), 0, w.len() as int);
    assert(s.subrange(0, w.len() as int) =~= w);
    assert(s.skip(w.len() as int) =~= gap + rest);
    lemma_words_shift_by(s, gap + rest, w.len() as int, 0);
    lemma_gap(gap, rest);
    lemma_scan_at(w, not_space(), 0, 0);
    assert forall|k: int| 0 <= k < w.len() implies !space()(#[trigger] w[k]) by {}
    lemma_scan_at(w, space(), 0, w.len() as int);
    assert(w.subrange(0, w.len() as int) =~= w);
    assert(words_from(w, w.len() as int) =~= Seq::<Seq<char>>::empty());
    assert(seq![w] + Seq::<Seq<char>>::empty() =~= seq![w]);
}

proof fn lemma_gap(gap: Seq<char>, rest: Seq<char>)
    requires
        forall|i: int| 0 <= i < gap.len() ==> is_space(#[trigger] gap[i]),
    ensures
        words_of(gap + rest) == words_of(rest),
{
    let t = gap + rest;
    let n = gap.len() as int;
    assert(t.skip(n) =~= rest);
    lemma_words_shift_by(t, rest, n, 0);
    if t.len() == 0 {
        assert(words_of(t) =~= words_of(rest));
    } else if rest.len() == 0 {
        assert forall|k: int| 0 <= k < t.len() implies !not_space()(#[trigger] t[k]) by {
            assert(t[k] == gap[k]);
        }
        lemma_scan_at(t, not_space(), 0, t.len() as int);
    } else {
        lemma_scan(rest, not_space(), 0);
        let a = scan(rest, not_space(), 0);
        assert forall|k: int| 0 <= k < n + a implies !not_space()(#[trigger] t[k]) by {
            if k < n {
                assert(t[k] == gap[k]);
            } else {
                assert(t[k] == rest[k - n]);
            }
        }
        if a < rest.len() {
            assert(t[n + a] == rest[a]);
        }
        lemma_scan_at(t, not_space(), 0, n + a);
        assert forall|k: int| n <= k < n + a implies !not_space()(#[trigger] t[k]) by {
            assert(t[k] == rest[k - n]);
        }
        lemma_scan_at(t, not_space(), n, n + a);
    }
}

/// Lines come apart again: the lines of a text that begins with a line and a
/// line feed are that line, without a carriage return at its end, and the
/// lines of the rest. A last line needs no line feed.
pub proof fn law_lines_come_apart(l: Seq<char>, rest: Seq<char>)
    requires
        !l.contains('\n'),
    ensures
        lines_of(l + seq!['\n'] + rest) == seq![without_cr(l)] + lines_of(rest),
        l.len() > 0 ==> lines_of(l) == seq![l],
        without_cr(l.push('\r')) == l,
        l.len() > 0 && l.last() != '\r' ==> without_cr(l) == l,
        lines_of(Seq::empty()) == Seq::<Seq<char>>::empty(),
{
    let s = l + seq!['\n'] + rest;
    assert forall|k: int| 0 <= k < l.len() implies !just('\n')(#[trigger] s[k]) by {
        assert(s[k] == l[k]);
        assert(l.contains(l[k]));
    }
    assert(s[l.len() as int] == '\n');
    lemma_scan_at(s, just('\n'), 0, l.len() as int);
    assert(s.subrange(0, l.len() as int) =~= l);
    assert(s.skip((l.len() + 1) as int) =~= rest);
    lemma_lines_shift_by(s, rest, (l.len() + 1) as int, 0);
    assert forall|k: int| 0 <= k < l.len() implies !just('\n')(#[trigger] l[k]) by {
        assert(l.contains(l[k]));
    }
    lemma_scan_at(l, just('\n'), 0, l.len() as int);
    assert(l.subrange(0, l.len() as int) =~= l);
    assert(l.push('\r').drop_last() =~= l);
}

proof fn lemma_lines_shift_by(s: Seq<char>, t: Seq<char>, off: int, j: int)
    requires
        0 <= off <= s.len(),
        t == s.skip(off),
        0 <= j <= t.len(),
    ensures
        lines_from(s, off + j) == lines_from(t, j),
    decreases t.len() - j,
{
    if j < t.len() {
        lemma_scan(t, just('\n'), j);
        let e = scan(t, just('\n'), j);
        assert forall|k: int| off + j <= k < off + e implies !just('\n')(#[trigger] s[k]) by {
            assert(s[k] == t[k - off]);
        }
        if e < t.len() {
            assert(s[off + e] == t[e]);
        }
        lemma_scan_at(s, just('\n'), off + j, off + e);
        assert(s.subrange(off + j, off + e) =~= t.subrange(j, e));
        if e < t.len() {
            lemma_lines_shift_by(s, t, off, e + 1);
        }
    }
}

/// Octets with a separator between them come apart again.
pub proof fn law_octets_come_apart(a: Seq<u8>, c: u8, rest: Seq<u8>)
    requires
        !a.contains(c),
    ensures
        octet_pieces_of(a + seq![c] + rest, c) == seq![a] + octet_pieces_of(rest, c),
        octet_pieces_of(a, c) == seq![a],
{
    let s = a + seq![c] + rest;
    assert(s.take(a.len() as int) =~= a);
    lemma_octet_at(s, c, 0, a.len() as int, a);
    assert(s.subrange(0, a.len() as int) =~= a);
    assert(s.skip((a.len() + 1) as int) =~= rest);
    lemma_octets_shift_by(s, rest, c, (a.len() + 1) as int, 0);
    assert(a.take(a.len() as int) =~= a);
    lemma_octet_at(a, c, 0, a.len() as int, a);
    assert(a.subrange(0, a.len() as int) =~= a);
}

proof fn lemma_octet_at(s: Seq<u8>, c: u8, i: int, e: int, a: Seq<u8>)
    requires
        0 <= i <= e <= s.len(),
        e == a.len(),
        a == s.take(e),
        !a.contains(c),
        e < s.len() ==> s[e] == c,
    ensures
        scan_octet(s, c, i) == e,
    decreases e - i,
{
    if i < e {
        assert(a[i] == s[i]);
        assert(a.contains(a[i]));
        lemma_octet_at(s, c, i + 1, e, a);
    }
}

proof fn lemma_octets_shift_by(s: Seq<u8>, t: Seq<u8>, c: u8, off: int, j: int)
    requires
        0 <= off <= s.len(),
        t == s.skip(off),
        0 <= j <= t.len(),
    ensures
        octet_pieces_from(s, c, off + j) == octet_pieces_from(t, c, j),
    decreases t.len() - j,
{
    lemma_scan_octet_shift(s, t, c, off, j);
    crate::text::lemma_scan_octet(t, c, j);
    let e = scan_octet(t, c, j);
    assert(s.subrange(off + j, off + e) =~= t.subrange(j, e));
    if e < t.len() {
        lemma_octets_shift_by(s, t, c, off, e + 1);
    }
}

proof fn lemma_scan_octet_shift(s: Seq<u8>, t: Seq<u8>, c: u8, off: int, j: int)
    requires
        0 <= off <= s.len(),
        t == s.skip(off),
        0 <= j <= t.len(),
    ensures
        scan_octet(s, c, off + j) == off + scan_octet(t, c, j),
    decreases t.len() - j,
{
    if j < t.len() {
        assert(s[off + j] == t[j]);
        if t[j] != c {
            lemma_scan_octet_shift(s, t, c, off, j + 1);
        }
    }
}

// ---------------------------------------------------------------------
// Trimming and searching
// ---------------------------------------------------------------------

/// White space around a text is taken off, and nothing else is.
pub proof fn law_trimming_takes_white_space_only(pre: Seq<char>, s: Seq<char>, post: Seq<char>)
    requires
        forall|i: int| 0 <= i < pre.len() ==> is_space(#[trigger] pre[i]),
        forall|i: int| 0 <= i < post.len() ==> is_space(#[trigger] post[i]),
        s.len() > 0 ==> !is_space(s[0]) && !is_space(s.last()),
    ensures
        trimmed(pre + s + post) == s,
{
    lemma_drop_front(pre, s + post);
    assert(pre + s + post =~= pre + (s + post));
    if s.len() > 0 {
        assert((s + post)[0] == s[0]);
        lemma_drop_back(s, post);
    } else {
        assert(s + post =~= post);
        lemma_drop_front(post, Seq::empty());
        assert(post + Seq::<char>::empty() =~= post);
        assert(drop_back(Seq::<char>::empty(), space()) =~= s);
    }
}

proof fn lemma_drop_front(pre: Seq<char>, s: Seq<char>)
    requires
        forall|i: int| 0 <= i < pre.len() ==> is_space(#[trigger] pre[i]),
    ensures
        drop_front(pre + s, space()) == drop_front(s, space()),
    decreases pre.len(),
{
    if pre.len() == 0 {
        assert(pre + s =~= s);
    } else {
        assert((pre + s)[0] == pre[0]);
        assert((pre + s).drop_first() =~= pre.drop_first() + s);
        lemma_drop_front(pre.drop_first(), s);
    }
}

proof fn lemma_drop_back(s: Seq<char>, post: Seq<char>)
    requires
        forall|i: int| 0 <= i < post.len() ==> is_space(#[trigger] post[i]),
        s.len() > 0,
        !is_space(s.last()),
    ensures
        drop_back(s + post, space()) == s,
    decreases post.len(),
{
    if post.len() == 0 {
        assert(s + post =~= s);
    } else {
        assert((s + post).last() == post.last());
        assert((s + post).drop_last() =~= s + post.drop_last());
        lemma_drop_back(s, post.drop_last());
    }
}

/// What is left of a text has no white space at its ends, and is a part of
/// the text.
pub proof fn law_trimmed_text_has_no_white_space_around(s: Seq<char>)
    ensures
        trimmed(s).len() <= s.len(),
        trimmed(s).len() > 0 ==> !is_space(trimmed(s)[0]) && !is_space(trimmed(s).last()),
        trimmed(trimmed(s)) == trimmed(s),
        trimmed(s).len() == 0 <==> forall|i: int| 0 <= i < s.len() ==> is_space(#[trigger] s[i]),
{
    lemma_front(s);
    let f = drop_front(s, space());
    lemma_back(f);
    let t = trimmed(s);
    if t.len() > 0 {
        assert(t[0] == f[0]);
        lemma_drop_front(Seq::empty(), t);
    }
    if t.len() == 0 && f.len() > 0 {
        assert(is_space(f[0]));
    }
    if f.len() == 0 {
        assert(forall|i: int| 0 <= i < s.len() ==> is_space(#[trigger] s[i]));
    }
    if f.len() > 0 {
        let k = s.len() - f.len();
        assert(s[k] == f[0]);
        assert(!is_space(f[0]));
    }
}

proof fn lemma_front(s: Seq<char>)
    ensures
        drop_front(s, space()).len() <= s.len(),
        drop_front(s, space()) == s.skip(s.len() - drop_front(s, space()).len()),
        drop_front(s, space()).len() > 0 ==> !is_space(drop_front(s, space())[0]),
        forall|i: int|
            0 <= i < s.len() - drop_front(s, space()).len() ==> is_space(#[trigger] s[i]),
    decreases s.len(),
{
    if s.len() > 0 && is_space(s[0]) {
        lemma_front(s.drop_first());
        let f = drop_front(s, space());
        assert(f =~= s.skip(s.len() - f.len()));
        assert forall|i: int| 0 <= i < s.len() - f.len() implies is_space(#[trigger] s[i]) by {
            if i > 0 {
                assert(s[i] == s.drop_first()[i - 1]);
            }
        }
    } else {
        assert(s.skip(0) =~= s);
    }
}

proof fn lemma_back(s: Seq<char>)
    ensures
        drop_back(s, space()).len() <= s.len(),
        drop_back(s, space()) == s.take(drop_back(s, space()).len() as int),
        drop_back(s, space()).len() > 0 ==> !is_space(drop_back(s, space()).last()),
        forall|i: int| drop_back(s, space()).len() <= i < s.len() ==> is_space(#[trigger] s[i]),
    decreases s.len(),
{
    if s.len() > 0 && is_space(s.last()) {
        lemma_back(s.drop_last());
        let b = drop_back(s, space());
        assert(b =~= s.take(b.len() as int));
        assert forall|i: int| b.len() <= i < s.len() implies is_space(#[trigger] s[i]) by {
            if i < s.len() - 1 {
                assert(s[i] == s.drop_last()[i]);
            }
        }
    } else {
        assert(s.take(s.len() as int) =~= s);
    }
}

/// A search finds the first place where the text stands, and one that finds
/// none overlooks none.
pub proof fn law_search_finds_the_first(s: Seq<char>, p: Seq<char>)
    ensures
        match find_text(s, p) {
            Some(i) => {
                &&& 0 <= i
                &&& i + p.len() <= s.len()
                &&& forall|k: int| 0 <= k < p.len() ==> s[i + k] == #[trigger] p[k]
                &&& forall|j: int| 0 <= j < i ==> !#[trigger] occurs_at(s, p, j)
            },
            None => forall|j: int| !#[trigger] occurs_at(s, p, j),
        },
        has_text(s, p) <==> find_text(s, p) is Some,
{
    lemma_search(s, p, 0);
    crate::text::lemma_find_text(s, p);
    match find_text(s, p) {
        Some(i) => {
            assert forall|k: int| 0 <= k < p.len() implies s[i + k] == #[trigger] p[k] by {
                assert(s.subrange(i, i + p.len())[k] == p[k]);
            }
        },
        None => {},
    }
}

proof fn lemma_search(s: Seq<char>, p: Seq<char>, i: int)
    requires
        0 <= i,
    ensures
        match find_text_from(s, p, i) {
            Some(r) => i <= r && occurs_at(s, p, r) && forall|j: int|
                i <= j < r ==> !#[trigger] occurs_at(s, p, j),
            None => forall|j: int| i <= j ==> !#[trigger] occurs_at(s, p, j),
        },
    decreases s.len() + 1 - i,
{
    if i <= s.len() - p.len() && !occurs_at(s, p, i) {
        lemma_search(s, p, i + 1);
    }
}

/// The last place of a character is one where it stands, with none after it.
pub proof fn law_last_index_is_last(s: Seq<char>, c: char)
    ensures
        match last_index(s, c, s.len() as int) {
            Some(i) => 0 <= i < s.len() && s[i] == c && !s.skip(i + 1).contains(c),
            None => !s.contains(c),
        },
{
    lemma_last(s, c, s.len() as int);
    match last_index(s, c, s.len() as int) {
        Some(i) => {
            let t = s.skip(i + 1);
            if t.contains(c) {
                let k = choose|k: int| 0 <= k < t.len() && t[k] == c;
                assert(s[i + 1 + k] == c);
            }
        },
        None => {},
    }
}

proof fn lemma_last(s: Seq<char>, c: char, n: int)
    requires
        0 <= n <= s.len(),
    ensures
        match last_index(s, c, n) {
            Some(i) => 0 <= i < n && s[i] == c && forall|k: int| i < k < n ==> #[trigger] s[k] != c,
            None => forall|k: int| 0 <= k < n ==> #[trigger] s[k] != c,
        },
    decreases n,
{
    if n > 0 && s[n - 1] != c {
        lemma_last(s, c, n - 1);
    }
}

/// Small letters stay, capitals become small ones, nothing else changes, and
/// the length stays.
pub proof fn law_small_letters(s: Seq<char>, i: int)
    requires
        0 <= i < s.len(),
    ensures
        ascii_lower(s).len() == s.len(),
        65 <= s[i] as u32 <= 90 ==> ascii_lower(s)[i] as u32 == s[i] as u32 + 32,
        !(65 <= s[i] as u32 <= 90) ==> ascii_lower(s)[i] == s[i],
        ascii_lower(ascii_lower(s)) == ascii_lower(s),
{
    assert(ascii_lower(ascii_lower(s)) =~= ascii_lower(s));
}

/// In text of ASCII the octets are the characters.
pub proof fn law_octets_of_ascii(s: Seq<char>, n: int)
    requires
        forall|i: int| 0 <= i < s.len() ==> (#[trigger] s[i]) as u32 <= 0x7f,
        0 <= n,
    ensures
        utf8_len(s) == s.len(),
        char_at(s, n as nat) == if n <= s.len() {
            Some(n)
        } else {
            None
        },
{
    lemma_ascii_len(s);
    lemma_ascii_at(s, n, 0);
}

proof fn lemma_ascii_len(s: Seq<char>)
    requires
        forall|i: int| 0 <= i < s.len() ==> (#[trigger] s[i]) as u32 <= 0x7f,
    ensures
        utf8_len(s) == s.len(),
    decreases s.len(),
{
    if s.len() > 0 {
        assert(s.last() == s[s.len() - 1]);
        assert(width(s.last()) == 1);
        assert forall|i: int| 0 <= i < s.drop_last().len() implies (#[trigger] s.drop_last()[i]) as u32
            <= 0x7f by {
            assert(s.drop_last()[i] == s[i]);
        }
        lemma_ascii_len(s.drop_last());
    }
}

proof fn lemma_ascii_at(s: Seq<char>, n: int, i: int)
    requires
        forall|k: int| 0 <= k < s.len() ==> (#[trigger] s[k]) as u32 <= 0x7f,
        0 <= i <= n,
        i <= s.len(),
    ensures
        char_at_from(s, n as nat, i) == if n <= s.len() {
            Some(n)
        } else {
            None
        },
    decreases s.len() - i,
{
    let t = s.take(i);
    assert forall|k: int| 0 <= k < t.len() implies (#[trigger] t[k]) as u32 <= 0x7f by {
        assert(t[k] == s[k]);
    }
    lemma_ascii_len(t);
    if i < n && i < s.len() {
        lemma_ascii_at(s, n, i + 1);
    }
}

// ---------------------------------------------------------------------
// Gathering
// ---------------------------------------------------------------------

/// What is gathered is what the items give, each once and none else: a part
/// gives what it gives on its own, and one item its own.
pub proof fn law_gathering<A, B>(a: Seq<A>, x: A, b: Seq<A>, f: spec_fn(A) -> Option<B>)
    ensures
        gather(a + seq![x] + b, f) == gather(a, f) + (match f(x) {
            Some(y) => seq![y],
            None => Seq::empty(),
        }) + gather(b, f),
        gather(Seq::<A>::empty(), f) == Seq::<B>::empty(),
{
    crate::text::lemma_gather_concat(a + seq![x], b, f);
    crate::text::lemma_gather_concat(a, seq![x], f);
    let one = seq![x];
    assert(one.drop_last() =~= Seq::empty());
    assert(gather(one.drop_last(), f) =~= Seq::empty());
    assert(gather(one, f) =~= match f(x) {
        Some(y) => seq![y],
        None => Seq::empty(),
    });
}

/// Whatever is gathered comes from an item, and whatever an item gives is
/// gathered.
pub proof fn law_gathered_items<A, B>(s: Seq<A>, f: spec_fn(A) -> Option<B>, y: B)
    ensures
        gather(s, f).contains(y) <==> exists|i: int| 0 <= i < s.len() && f(#[trigger] s[i]) == Some(y),
    decreases s.len(),
{
    if s.len() > 0 {
        let front = s.drop_last();
        law_gathered_items(front, f, y);
        let g = gather(front, f);
        let all = gather(s, f);
        if exists|i: int| 0 <= i < s.len() && f(#[trigger] s[i]) == Some(y) {
            let i = choose|i: int| 0 <= i < s.len() && f(#[trigger] s[i]) == Some(y);
            if i < s.len() - 1 {
                assert(front[i] == s[i]);
                assert(g.contains(y));
                let k = choose|k: int| 0 <= k < g.len() && g[k] == y;
                assert(all[k] == y);
            } else {
                assert(all.last() == y);
            }
        }
        if all.contains(y) {
            let k = choose|k: int| 0 <= k < all.len() && all[k] == y;
            if k < g.len() {
                assert(g[k] == y);
                assert(g.contains(y));
                let i = choose|i: int| 0 <= i < front.len() && f(#[trigger] front[i]) == Some(y);
                assert(s[i] == front[i]);
            } else {
                assert(f(s[s.len() - 1]) == Some(y));
            }
        }
    }
}

/// Words are not empty and hold no white space.
pub proof fn law_words_hold_no_white_space(s: Seq<char>, i: int)
    requires
        0 <= i < words_of(s).len(),
    ensures
        words_of(s)[i].len() > 0,
        forall|k: int|
            0 <= k < words_of(s)[i].len() ==> !crate::text::is_space(#[trigger] words_of(s)[i][k]),
{
    lemma_words_from(s, 0, i);
}

proof fn lemma_words_from(s: Seq<char>, from: int, i: int)
    requires
        0 <= i < crate::text::words_from(s, from).len(),
    ensures
        crate::text::words_from(s, from)[i].len() > 0,
        forall|k: int|
            0 <= k < crate::text::words_from(s, from)[i].len() ==> !crate::text::is_space(
                #[trigger] crate::text::words_from(s, from)[i][k],
            ),
    decreases s.len() - from,
{
    if 0 <= from < s.len() {
        let a = crate::text::scan(s, crate::text::not_space(), from);
        let e = crate::text::scan(s, crate::text::space(), a);
        crate::text::lemma_scan(s, crate::text::not_space(), from);
        crate::text::lemma_scan(s, crate::text::space(), a);
        if a < s.len() {
            assert(crate::text::not_space()(s[a]));
            if e == a {
                assert(crate::text::space()(s[e]));
            }
            if i > 0 {
                lemma_words_from(s, e, i - 1);
            } else {
                assert forall|k: int| 0 <= k < e - a implies !crate::text::is_space(
                    #[trigger] s.subrange(a, e)[k],
                ) by {
                    assert(!crate::text::space()(s[a + k]));
                }
            }
        }
    }
}

/// A text without the separator is one piece.
pub proof fn law_one_piece(s: Seq<char>, c: char)
    requires
        !s.contains(c),
    ensures
        pieces_of(s, c) == seq![s],
{
    assert forall|k: int| 0 <= k < s.len() implies !just(c)(#[trigger] s[k]) by {
        assert(s.contains(s[k]));
    }
    lemma_scan_at(s, just(c), 0, s.len() as int);
    assert(s.subrange(0, s.len() as int) =~= s);
}

/// White space is what Unicode takes for it: tab, line feed, line tabulation,
/// form feed and carriage return, the blank, next line, and the spaces and
/// separators beyond ASCII.
pub proof fn law_white_space_of_unicode(c: char)
    ensures
        crate::text::is_space(c) <==> {
            let u = c as u32;
            ||| u == 9
            ||| u == 10
            ||| u == 11
            ||| u == 12
            ||| u == 13
            ||| u == 32
            ||| u == 133
            ||| u == 160
            ||| u == 5760
            ||| (8192 <= u && u < 8203)
            ||| u == 8232
            ||| u == 8233
            ||| u == 8239
            ||| u == 8287
            ||| u == 12288
        },
{
}

/// The length of a text in octets is that of its encoding.
pub proof fn law_lengths_in_octets(s: Seq<char>)
    ensures
        crate::text::utf8_len(s) == vstd::utf8::encode_utf8(s).len(),
    decreases s.len(),
{
    if s.len() > 0 {
        lemma_width(s[0]);
        lemma_first_width(s);
        law_lengths_in_octets(s.drop_first());
    }
}

proof fn lemma_width(c: char)
    ensures
        crate::text::width(c) == vstd::utf8::encode_scalar(c as u32).len(),
{
    vstd::utf8::char_is_scalar(c);
}

proof fn lemma_first_width(s: Seq<char>)
    requires
        s.len() > 0,
    ensures
        crate::text::utf8_len(s) == crate::text::width(s[0]) + crate::text::utf8_len(s.drop_first()),
    decreases s.len(),
{
    if s.len() == 1 {
        assert(s.drop_last() =~= Seq::empty());
        assert(s.drop_first() =~= Seq::empty());
    } else {
        lemma_first_width(s.drop_last());
        assert(s.drop_last().drop_first() =~= s.drop_first().drop_last());
        assert(s.drop_first().last() == s.last());
        assert(s.drop_last()[0] == s[0]);
    }
}

} // verus!
