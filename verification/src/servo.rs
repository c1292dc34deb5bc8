//! The servo lines that ptp4l prints, read as text:
//! `ptp4l[T]: master offset O S freq F path delay D`.
use vstd::prelude::*;
use crate::node::Ptp4lReport;
use crate::text::{chars_of, has_prefix, substring};

verus! {

/// The character classes of a servo line: ASCII digits (0), blanks (1),
/// and the letters and digits of a servo state (2).
pub open spec fn in_class(c: char, cls: u8) -> bool {
    if cls == 0 {
        '0' <= c && c <= '9'
    } else if cls == 1 {
        c == ' ' || c == '\t'
    } else {
        ('a' <= c && c <= 'z') || ('0' <= c && c <= '9')
    }
}

/// How many characters at the start of `s` are of class `cls`.
pub open spec fn run_len(s: Seq<char>, cls: u8) -> nat
    decreases s.len(),
{
    if s.len() > 0 && in_class(s[0], cls) {
        1 + run_len(s.drop_first(), cls)
    } else {
        0
    }
}

/// The longest non-empty run of class `cls` at the start of `s`, and what follows it.
pub open spec fn take_run(s: Seq<char>, cls: u8) -> Option<(Seq<char>, Seq<char>)> {
    let n = run_len(s, cls);
    if n == 0 {
        None
    } else {
        Some((s.take(n as int), s.skip(n as int)))
    }
}

/// What follows the literal `l` at the start of `s`, if `s` begins with it.
pub open spec fn after_lit(s: Seq<char>, l: Seq<char>) -> Option<Seq<char>> {
    if has_prefix(s, l) {
        Some(s.skip(l.len() as int))
    } else {
        None
    }
}

/// An integer with an optional minus sign at the start of `s`, and what follows it.
pub open spec fn take_signed(s: Seq<char>) -> Option<(Seq<char>, Seq<char>)> {
    if s.len() > 0 && s[0] == '-' {
        match take_run(s.drop_first(), 0) {
            Some((d, r)) => Some((seq!['-'] + d, r)),
            None => None,
        }
    } else {
        take_run(s, 0)
    }
}

/// `s` without one leading plus sign.
pub open spec fn skip_plus(s: Seq<char>) -> Seq<char> {
    if s.len() > 0 && s[0] == '+' {
        s.drop_first()
    } else {
        s
    }
}

/// What may follow the path delay: nothing, or whitespace.
pub open spec fn is_tail(s: Seq<char>) -> bool {
    s.len() == 0 || s[0] == ' ' || s[0] == '\t' || s[0] == '\n' || s[0] == '\r'
}

/// The fields of the path delay and what follows it.
pub open spec fn delay_fields(r14: Seq<char>) -> Option<Seq<char>> {
    match take_run(r14, 1) {
        None => None,
        Some((_, r15)) => match take_run(r15, 0) {
            None => None,
            Some((d, r16)) => if is_tail(r16) {
                Some(d)
            } else {
                None
            },
        },
    }
}

/// The frequency and path delay of a servo line, from the blanks after `freq`.
pub open spec fn freq_fields(r10: Seq<char>) -> Option<(Seq<char>, Seq<char>)> {
    match take_run(r10, 1) {
        None => None,
        Some((_, r11)) => match take_signed(skip_plus(r11)) {
            None => None,
            Some((f, r12)) => match take_run(r12, 1) {
                None => None,
                Some((_, r13)) => match after_lit(r13, "path delay"@) {
                    None => None,
                    Some(r14) => match delay_fields(r14) {
                        None => None,
                        Some(d) => Some((f, d)),
                    },
                },
            },
        },
    }
}

/// The offset, state, frequency and path delay of a servo line, from the
/// blanks after `master offset`.
pub open spec fn offset_fields(r4: Seq<char>) -> Option<
    (Seq<char>, Seq<char>, Seq<char>, Seq<char>),
> {
    match take_run(r4, 1) {
        None => None,
        Some((_, r5)) => match take_signed(r5) {
            None => None,
            Some((o, r6)) => match take_run(r6, 1) {
                None => None,
                Some((_, r7)) => match take_run(r7, 2) {
                    None => None,
                    Some((st, r8)) => match take_run(r8, 1) {
                        None => None,
                        Some((_, r9)) => match after_lit(r9, "freq"@) {
                            None => None,
                            Some(r10) => match freq_fields(r10) {
                                None => None,
                                Some((f, d)) => Some((o, st, f, d)),
                            },
                        },
                    },
                },
            },
        },
    }
}

/// The offset, state, frequency and path delay of a servo line
/// `ptp4l[T]: master offset O S freq F path delay D`, read from its start.
pub open spec fn servo_fields(s: Seq<char>) -> Option<(Seq<char>, Seq<char>, Seq<char>, Seq<char>)> {
    match after_lit(s, "ptp4l["@) {
        None => None,
        Some(r0) => match take_run(r0, 0) {
            None => None,
            Some((_, r1)) => match after_lit(r1, "."@) {
                None => None,
                Some(r2) => match take_run(r2, 0) {
                    None => None,
                    Some((_, r3)) => match after_lit(r3, "]: master offset"@) {
                        None => None,
                        Some(r4) => offset_fields(r4),
                    },
                },
            },
        },
    }
}

fn class_of(c: char, cls: u8) -> (b: bool)
    ensures
        b == in_class(c, cls),
{
    if cls == 0 {
        '0' <= c && c <= '9'
    } else if cls == 1 {
        c == ' ' || c == '\t'
    } else {
        ('a' <= c && c <= 'z') || ('0' <= c && c <= '9')
    }
}

/// The end of the run of class `cls` that starts at `i`.
fn run_end(v: &Vec<char>, i: usize, cls: u8) -> (j: usize)
    requires
        i <= v@.len(),
    ensures
        i <= j <= v@.len(),
        j - i == run_len(v@.skip(i as int), cls),
        v@.skip(i as int).take(j - i) == v@.subrange(i as int, j as int),
        v@.skip(i as int).skip(j - i) == v@.skip(j as int),
{
    let mut k = i;
    while k < v.len() && class_of(v[k], cls)
        invariant
            i <= k <= v@.len(),
            run_len(v@.skip(i as int), cls) == (k - i) + run_len(v@.skip(k as int), cls),
        decreases v@.len() - k,
    {
        assert(v@.skip(k as int)[0] == v@[k as int]);
        assert(v@.skip(k as int).drop_first() =~= v@.skip(k + 1));
        k += 1;
    }
    if k < v.len() {
        assert(v@.skip(k as int)[0] == v@[k as int]);
    }
    assert(v@.skip(i as int).take(k - i) =~= v@.subrange(i as int, k as int));
    assert(v@.skip(i as int).skip(k - i) =~= v@.skip(k as int));
    k
}

/// The index after the literal `lit` at `i`, if `v` holds it there.
fn lit_end(v: &Vec<char>, i: usize, lit: &str) -> (r: Option<usize>)
    requires
        i <= v@.len(),
    ensures
        after_lit(v@.skip(i as int), lit@) matches Some(rest) ==> (r matches Some(j) && j
            <= v@.len() && rest == v@.skip(j as int)),
        after_lit(v@.skip(i as int), lit@) is None ==> r is None,
{
    let l = chars_of(lit);
    if l.len() > v.len() - i {
        return None;
    }
    let mut k: usize = 0;
    while k < l.len()
        invariant
            l@ == lit@,
            i <= v@.len(),
            i + l@.len() <= v@.len(),
            v@.len() <= usize::MAX,
            k <= l@.len(),
            forall|m: int| 0 <= m < k ==> v@[i + m] == l@[m],
        decreases l@.len() - k,
    {
        if v[i + k] != l[k] {
            assert(v@.skip(i as int).subrange(0, l@.len() as int)[k as int] != l@[k as int]);
            return None;
        }
        k += 1;
    }
    assert(v@.skip(i as int).subrange(0, l@.len() as int) =~= l@);
    assert(v@.skip(i as int).skip(l@.len() as int) =~= v@.skip(i + l@.len()));
    Some(i + l.len())
}

/// The end of a non-empty run of class `cls` at `i`, if there is one.
fn take_run_end(v: &Vec<char>, i: usize, cls: u8) -> (r: Option<usize>)
    requires
        i <= v@.len(),
    ensures
        take_run(v@.skip(i as int), cls) matches Some(t) ==> (r matches Some(j) && i < j
            <= v@.len() && t.0 == v@.subrange(i as int, j as int) && t.1 == v@.skip(j as int)),
        take_run(v@.skip(i as int), cls) is None ==> r is None,
{
    let j = run_end(v, i, cls);
    if j == i {
        None
    } else {
        Some(j)
    }
}

/// The end of an integer with an optional minus sign at `i`, if there is one.
fn signed_end(v: &Vec<char>, i: usize) -> (r: Option<usize>)
    requires
        i <= v@.len(),
    ensures
        take_signed(v@.skip(i as int)) matches Some(t) ==> (r matches Some(j) && i < j <= v@.len()
            && t.0 == v@.subrange(i as int, j as int) && t.1 == v@.skip(j as int)),
        take_signed(v@.skip(i as int)) is None ==> r is None,
{
    if i < v.len() && v[i] == '-' {
        assert(v@.skip(i as int)[0] == v@[i as int]);
        assert(v@.skip(i as int).drop_first() =~= v@.skip(i + 1));
        match take_run_end(v, i + 1, 0) {
            None => None,
            Some(j) => {
                assert(seq!['-'] + v@.subrange(i + 1, j as int) =~= v@.subrange(i as int, j as int));
                Some(j)
            },
        }
    } else {
        if i < v.len() {
            assert(v@.skip(i as int)[0] == v@[i as int]);
        }
        take_run_end(v, i, 0)
    }
}

/// The report of a servo line, read from its text; `None` for any other line.
pub fn servo_report(line: &str) -> (r: Option<Ptp4lReport>)
    ensures
        servo_fields(line@) matches Some(t) ==> (r matches Some(rep) && rep.offset_from_master@
            == t.0 && rep.state@ == t.1 && rep.frequency@ == t.2 && rep.path_delay@ == t.3),
        servo_fields(line@) is None ==> r is None,
{
    let v = chars_of(line);
    let n = v.len();
    assert(v@.skip(0) =~= v@);
    let i0 = match lit_end(&v, 0, "ptp4l[") { Some(j) => j, None => return None };
    let i1 = match take_run_end(&v, i0, 0) { Some(j) => j, None => return None };
    let i2 = match lit_end(&v, i1, ".") { Some(j) => j, None => return None };
    let i3 = match take_run_end(&v, i2, 0) { Some(j) => j, None => return None };
    let i4 = match lit_end(&v, i3, "]: master offset") { Some(j) => j, None => return None };
    let i5 = match take_run_end(&v, i4, 1) { Some(j) => j, None => return None };
    let i6 = match signed_end(&v, i5) { Some(j) => j, None => return None };
    let i7 = match take_run_end(&v, i6, 1) { Some(j) => j, None => return None };
    let i8 = match take_run_end(&v, i7, 2) { Some(j) => j, None => return None };
    let i9 = match take_run_end(&v, i8, 1) { Some(j) => j, None => return None };
    let i10 = match lit_end(&v, i9, "freq") { Some(j) => j, None => return None };
    let i11 = match take_run_end(&v, i10, 1) { Some(j) => j, None => return None };
    let p = if i11 < n && v[i11] == '+' { i11 + 1 } else { i11 };
    if i11 < n {
        assert(v@.skip(i11 as int)[0] == v@[i11 as int]);
        assert(v@.skip(i11 as int).drop_first() =~= v@.skip(i11 + 1));
    }
    assert(skip_plus(v@.skip(i11 as int)) == v@.skip(p as int));
    let i12 = match signed_end(&v, p) { Some(j) => j, None => return None };
    let i13 = match take_run_end(&v, i12, 1) { Some(j) => j, None => return None };
    let i14 = match lit_end(&v, i13, "path delay") { Some(j) => j, None => return None };
    let i15 = match take_run_end(&v, i14, 1) { Some(j) => j, None => return None };
    let i16 = match take_run_end(&v, i15, 0) { Some(j) => j, None => return None };
    if i16 < n {
        assert(v@.skip(i16 as int)[0] == v@[i16 as int]);
        let c = v[i16];
        if !(c == ' ' || c == '\t' || c == '\n' || c == '\r') {
            return None;
        }
    }
    Some(
        Ptp4lReport {
            offset_from_master: substring(line, i5, i6),
            state: substring(line, i7, i8),
            frequency: substring(line, p, i12),
            path_delay: substring(line, i15, i16),
        },
    )
}

proof fn lemma_run_len_concat(x: Seq<char>, b: Seq<char>, cls: u8)
    requires
        forall|i: int| 0 <= i < x.len() ==> in_class(#[trigger] x[i], cls),
        b.len() == 0 || !in_class(b[0], cls),
    ensures
        run_len(x + b, cls) == x.len(),
    decreases x.len(),
{
    if x.len() == 0 {
        assert(x + b =~= b);
    } else {
        assert((x + b)[0] == x[0]);
        assert((x + b).drop_first() =~= x.drop_first() + b);
        assert forall|i: int| 0 <= i < x.drop_first().len() implies in_class(
            #[trigger] x.drop_first()[i],
            cls,
        ) by {
            assert(x.drop_first()[i] == x[i + 1]);
        }
        lemma_run_len_concat(x.drop_first(), b, cls);
    }
}

proof fn lemma_take_run_concat(x: Seq<char>, b: Seq<char>, cls: u8)
    requires
        x.len() > 0,
        forall|i: int| 0 <= i < x.len() ==> in_class(#[trigger] x[i], cls),
        b.len() == 0 || !in_class(b[0], cls),
    ensures
        take_run(x + b, cls) == Some((x, b)),
{
    lemma_run_len_concat(x, b, cls);
    assert((x + b).take(x.len() as int) =~= x);
    assert((x + b).skip(x.len() as int) =~= b);
}

proof fn lemma_after_lit_concat(l: Seq<char>, b: Seq<char>)
    ensures
        after_lit(l + b, l) == Some(b),
{
    assert((l + b).subrange(0, l.len() as int) =~= l);
    assert((l + b).skip(l.len() as int) =~= b);
}

proof fn lemma_take_signed_concat(o: Seq<char>, b: Seq<char>)
    requires
        (o.len() > 0 && forall|i: int| 0 <= i < o.len() ==> '0' <= #[trigger] o[i] <= '9') || (
        o.len() > 1 && o[0] == '-' && forall|i: int|
            1 <= i < o.len() ==> '0' <= #[trigger] o[i] <= '9'),
        b.len() == 0 || !('0' <= b[0] <= '9'),
    ensures
        take_signed(o + b) == Some((o, b)),
{
    assert((o + b)[0] == o[0]);
    if o[0] == '-' {
        let d = o.drop_first();
        assert forall|i: int| 0 <= i < d.len() implies in_class(#[trigger] d[i], 0) by {
            assert(d[i] == o[i + 1]);
        }
        assert((o + b).drop_first() =~= d + b);
        lemma_take_run_concat(d, b, 0);
        assert(seq!['-'] + d =~= o);
    } else {
        assert forall|i: int| 0 <= i < o.len() implies in_class(#[trigger] o[i], 0) by {}
        lemma_take_run_concat(o, b, 0);
    }
}

/// A servo line of ptp4l, `ptp4l[T]: master offset O S freq F path delay D`,
/// gives exactly its offset `O`, state `S`, frequency `F` (without a leading
/// `+`) and path delay `D`: whatever their lengths, `T` being two runs of
/// digits around a point, `O` and `F` runs of digits with an optional minus
/// sign, `S` a run of lowercase letters and digits, `D` a run of digits,
/// the fields separated by runs of spaces or tabs, and nothing but
/// whitespace, if anything, after `D`.
pub proof fn lemma_servo_line(
    t1: Seq<char>,
    t2: Seq<char>,
    w1: Seq<char>,
    o: Seq<char>,
    w2: Seq<char>,
    st: Seq<char>,
    w3: Seq<char>,
    w4: Seq<char>,
    plus: Seq<char>,
    f: Seq<char>,
    w5: Seq<char>,
    w6: Seq<char>,
    d: Seq<char>,
    tail: Seq<char>,
    line: Seq<char>,
)
    requires
        t1.len() > 0 && forall|i: int| 0 <= i < t1.len() ==> '0' <= #[trigger] t1[i] <= '9',
        t2.len() > 0 && forall|i: int| 0 <= i < t2.len() ==> '0' <= #[trigger] t2[i] <= '9',
        d.len() > 0 && forall|i: int| 0 <= i < d.len() ==> '0' <= #[trigger] d[i] <= '9',
        (o.len() > 0 && forall|i: int| 0 <= i < o.len() ==> '0' <= #[trigger] o[i] <= '9') || (
        o.len() > 1 && o[0] == '-' && forall|i: int|
            1 <= i < o.len() ==> '0' <= #[trigger] o[i] <= '9'),
        (f.len() > 0 && forall|i: int| 0 <= i < f.len() ==> '0' <= #[trigger] f[i] <= '9') || (
        f.len() > 1 && f[0] == '-' && forall|i: int|
            1 <= i < f.len() ==> '0' <= #[trigger] f[i] <= '9'),
        st.len() > 0 && forall|i: int|
            0 <= i < st.len() ==> ('a' <= #[trigger] st[i] <= 'z') || ('0' <= st[i] <= '9'),
        w1.len() > 0 && forall|i: int| 0 <= i < w1.len() ==> #[trigger] w1[i] == ' ' || w1[i] == '\t',
        w2.len() > 0 && forall|i: int| 0 <= i < w2.len() ==> #[trigger] w2[i] == ' ' || w2[i] == '\t',
        w3.len() > 0 && forall|i: int| 0 <= i < w3.len() ==> #[trigger] w3[i] == ' ' || w3[i] == '\t',
        w4.len() > 0 && forall|i: int| 0 <= i < w4.len() ==> #[trigger] w4[i] == ' ' || w4[i] == '\t',
        w5.len() > 0 && forall|i: int| 0 <= i < w5.len() ==> #[trigger] w5[i] == ' ' || w5[i] == '\t',
        w6.len() > 0 && forall|i: int| 0 <= i < w6.len() ==> #[trigger] w6[i] == ' ' || w6[i] == '\t',
        plus == Seq::<char>::empty() || plus == seq!['+'],
        tail.len() == 0 || tail[0] == ' ' || tail[0] == '\t' || tail[0] == '\n' || tail[0] == '\r',
        line == "ptp4l["@ + (t1 + ("."@ + (t2 + ("]: master offset"@ + (w1 + (o + (w2 + (st + (w3
            + ("freq"@ + (w4 + (plus + (f + (w5 + ("path delay"@ + (w6 + (d + tail))))))))))))))))),
    ensures
        servo_fields(line) == Some((o, st, f, d)),
{
    reveal_strlit("ptp4l[");
    reveal_strlit(".");
    reveal_strlit("]: master offset");
    reveal_strlit("freq");
    reveal_strlit("path delay");
    let r15 = d + tail;
    let r14 = w6 + r15;
    let r13 = "path delay"@ + r14;
    let r12 = w5 + r13;
    let r11 = plus + (f + r12);
    let r10 = w4 + r11;
    let r9 = "freq"@ + r10;
    let r8 = w3 + r9;
    let r7 = st + r8;
    let r6 = w2 + r7;
    let r5 = o + r6;
    let r4 = w1 + r5;
    let r3 = "]: master offset"@ + r4;
    let r2 = t2 + r3;
    let r1 = "."@ + r2;
    let r0 = t1 + r1;
    lemma_after_lit_concat("ptp4l["@, r0);
    assert forall|i: int| 0 <= i < t1.len() implies in_class(#[trigger] t1[i], 0) by {}
    assert(r1[0] == '.');
    lemma_take_run_concat(t1, r1, 0);
    lemma_after_lit_concat("."@, r2);
    assert forall|i: int| 0 <= i < t2.len() implies in_class(#[trigger] t2[i], 0) by {}
    assert(r3[0] == ']');
    lemma_take_run_concat(t2, r3, 0);
    lemma_after_lit_concat("]: master offset"@, r4);
    // offset fields
    assert forall|i: int| 0 <= i < w1.len() implies in_class(#[trigger] w1[i], 1) by {}
    assert(r5[0] == o[0]);
    lemma_take_run_concat(w1, r5, 1);
    assert(r6[0] == w2[0]);
    lemma_take_signed_concat(o, r6);
    assert forall|i: int| 0 <= i < w2.len() implies in_class(#[trigger] w2[i], 1) by {}
    assert(r7[0] == st[0]);
    lemma_take_run_concat(w2, r7, 1);
    assert forall|i: int| 0 <= i < st.len() implies in_class(#[trigger] st[i], 2) by {}
    assert(r8[0] == w3[0]);
    lemma_take_run_concat(st, r8, 2);
    assert forall|i: int| 0 <= i < w3.len() implies in_class(#[trigger] w3[i], 1) by {}
    assert(r9[0] == 'f');
    lemma_take_run_concat(w3, r9, 1);
    lemma_after_lit_concat("freq"@, r10);
    // frequency fields
    assert forall|i: int| 0 <= i < w4.len() implies in_class(#[trigger] w4[i], 1) by {}
    if plus.len() == 0 {
        assert(r11 =~= f + r12);
        assert(r11[0] == f[0]);
    } else {
        assert(r11[0] == '+');
        assert(r11.drop_first() =~= f + r12);
    }
    lemma_take_run_concat(w4, r11, 1);
    assert(f[0] != '+');
    assert(skip_plus(r11) == f + r12);
    assert(r12[0] == w5[0]);
    lemma_take_signed_concat(f, r12);
    assert forall|i: int| 0 <= i < w5.len() implies in_class(#[trigger] w5[i], 1) by {}
    assert(r13[0] == 'p');
    lemma_take_run_concat(w5, r13, 1);
    lemma_after_lit_concat("path delay"@, r14);
    // delay fields
    assert forall|i: int| 0 <= i < w6.len() implies in_class(#[trigger] w6[i], 1) by {}
    assert(r15[0] == d[0]);
    lemma_take_run_concat(w6, r15, 1);
    assert forall|i: int| 0 <= i < d.len() implies in_class(#[trigger] d[i], 0) by {}
    if tail.len() > 0 {
        assert(tail[0] != '0');
    }
    lemma_take_run_concat(d, tail, 0);
    assert(delay_fields(r14) == Some(d));
    assert(freq_fields(r10) == Some((f, d)));
    assert(offset_fields(r4) == Some((o, st, f, d)));
}

} // verus!
