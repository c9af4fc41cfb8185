//! Character-level helpers: decimal and zero-padded numbers, and the
//! RFC 5545 text escaping used for iCalendar property values.
use vstd::prelude::*;

verus! {

/// Appends one character to a string (`String::push`).
#[verifier::external_body]
pub(crate) fn push_char(s: &mut String, c: char)
    ensures
        final(s)@ == old(s)@.push(c),
{
    s.push(c)
}

/// The characters of a string slice, in order.
pub fn chars_of(s: &str) -> (res: Vec<char>)
    ensures
        res@ == s@,
{
    let mut res: Vec<char> = Vec::new();
    for c in it: s.chars()
        invariant
            res@ == it.seq().take(it.index() as int),
    {
        res.push(c);
    }
    res
}

/// A copy of a string slice as an owned string.
pub fn owned(s: &str) -> (res: String)
    ensures
        res@ == s@,
{
    String::from_str(s)
}

/// Whether two strings hold the same characters.
pub fn str_eq(a: &str, b: &str) -> (res: bool)
    ensures
        res == (a@ == b@),
{
    let va = chars_of(a);
    let vb = chars_of(b);
    if va.len() != vb.len() {
        return false;
    }
    let mut i: usize = 0;
    while i < va.len()
        invariant
            va@ == a@,
            vb@ == b@,
            va.len() == vb.len(),
            i <= va.len(),
            forall|j: int| 0 <= j < i ==> va@[j] == vb@[j],
        decreases va.len() - i,
    {
        if va[i] != vb[i] {
            return false;
        }
        i = i + 1;
    }
    assert(a@ =~= b@);
    true
}

/// `t` is a suffix of `s`.
pub open spec fn is_suffix(t: Seq<char>, s: Seq<char>) -> bool {
    t.len() <= s.len() && s.subrange(s.len() - t.len(), s.len() as int) == t
}

/// Whether `s` ends with `t` (`str::ends_with` on a string pattern).
pub fn ends_with(s: &str, t: &str) -> (res: bool)
    ensures
        res == is_suffix(t@, s@),
{
    let vs = chars_of(s);
    let vt = chars_of(t);
    if vt.len() > vs.len() {
        return false;
    }
    let off = vs.len() - vt.len();
    let mut i: usize = 0;
    while i < vt.len()
        invariant
            vs@ == s@,
            vt@ == t@,
            off == vs.len() - vt.len(),
            i <= vt.len(),
            forall|j: int| 0 <= j < i ==> vs@[off + j] == vt@[j],
        decreases vt.len() - i,
    {
        if vs[off + i] != vt[i] {
            assert(s@.subrange(off as int, s@.len() as int)[i as int] != t@[i as int]);
            return false;
        }
        i = i + 1;
    }
    assert(s@.subrange(off as int, s@.len() as int) =~= t@);
    true
}

/// Whether `s` holds the character `c` (`str::contains` on a `char`).
pub fn contains_char(s: &str, c: char) -> (res: bool)
    ensures
        res == s@.contains(c),
{
    let vs = chars_of(s);
    let mut i: usize = 0;
    while i < vs.len()
        invariant
            vs@ == s@,
            i <= vs.len(),
            forall|j: int| 0 <= j < i ==> vs@[j] != c,
        decreases vs.len() - i,
    {
        if vs[i] == c {
            assert(s@[i as int] == c);
            return true;
        }
        i = i + 1;
    }
    false
}

/// The ASCII digit for `d < 10`.
pub open spec fn digit_char(d: nat) -> char {
    (d + 48) as char
}

/// The decimal representation of `n`, without leading zeros.
pub open spec fn dec(n: nat) -> Seq<char>
    decreases n,
{
    if n < 10 {
        seq![digit_char(n)]
    } else {
        dec(n / 10).push(digit_char(n % 10))
    }
}

/// `n` in decimal, left-padded with `'0'` to at least `width` characters.
pub open spec fn pad_dec(n: nat, width: nat) -> Seq<char> {
    if dec(n).len() < width {
        Seq::new((width - dec(n).len()) as nat, |i: int| '0') + dec(n)
    } else {
        dec(n)
    }
}

fn digit(d: u64) -> (c: char)
    requires
        d < 10,
    ensures
        c == digit_char(d as nat),
{
    ((d as u8 + 48) as char)
}

/// Appends `n` in decimal.
pub fn push_decimal(s: &mut String, n: u64)
    ensures
        final(s)@ == old(s)@ + dec(n as nat),
    decreases n,
{
    if n >= 10 {
        push_decimal(s, n / 10);
    }
    push_char(s, digit(n % 10));
    assert(final(s)@ =~= old(s)@ + dec(n as nat));
}

/// The number of characters of `n` in decimal.
pub fn decimal_len(n: u64) -> (len: usize)
    ensures
        len == dec(n as nat).len(),
        len <= 20,
    decreases n,
{
    if n < 10 {
        1
    } else {
        proof { lemma_dec_len_bound(n as nat); }
        decimal_len(n / 10) + 1
    }
}

/// Every decimal representation is nonempty and a `u64` needs at most 20 digits.
pub proof fn lemma_dec_len_bound(n: nat)
    ensures
        1 <= dec(n).len(),
        n < 10 ==> dec(n).len() == 1,
        n <= 0xffff_ffff_ffff_ffff ==> dec(n).len() <= 20,
{
    lemma_dec_nonempty(n);
    if n <= 0xffff_ffff_ffff_ffff {
        reveal_with_fuel(pow10, 21);
        assert(pow10(20) == 100000000000000000000nat);
        lemma_dec_len_tiny(n, 20);
    }
}

proof fn lemma_dec_nonempty(n: nat)
    ensures
        1 <= dec(n).len(),
    decreases n,
{
    if n >= 10 {
        lemma_dec_nonempty(n / 10);
    }
}

/// A number below ten to the `k` has at most `k` decimal digits.
pub proof fn lemma_dec_len_tiny(n: nat, k: nat)
    requires
        n < pow10(k),
        1 <= k,
    ensures
        dec(n).len() <= k,
    decreases n,
{
    if n >= 10 {
        if k == 1 {
            assert(pow10(1) == 10 * pow10(0));
        }
        assert(pow10(k) == 10 * pow10((k - 1) as nat));
        assert(n / 10 < pow10((k - 1) as nat));
        lemma_dec_len_tiny(n / 10, (k - 1) as nat);
    }
}

/// Ten to the power `k`.
pub open spec fn pow10(k: nat) -> nat
    decreases k,
{
    if k == 0 {
        1
    } else {
        10 * pow10((k - 1) as nat)
    }
}

/// Appends `n` in decimal, zero-padded to `width` characters.
pub fn push_padded(s: &mut String, n: u64, width: usize)
    ensures
        final(s)@ == old(s)@ + pad_dec(n as nat, width as nat),
{
    let len = decimal_len(n);
    let ghost start = s@;
    if len < width {
        let zeros = width - len;
        let mut i: usize = 0;
        while i < zeros
            invariant
                i <= zeros,
                s@ == start + Seq::new(i as nat, |k: int| '0'),
            decreases zeros - i,
        {
            push_char(s, '0');
            i = i + 1;
            assert(s@ =~= start + Seq::new(i as nat, |k: int| '0'));
        }
    }
    push_decimal(s, n);
    assert(s@ =~= old(s)@ + pad_dec(n as nat, width as nat));
}

/// The escaped form of one character in an iCalendar text value.
pub open spec fn escape_char(c: char) -> Seq<char> {
    if c == '\\' {
        seq!['\\', '\\']
    } else if c == ';' {
        seq!['\\', ';']
    } else if c == ',' {
        seq!['\\', ',']
    } else if c == '\n' {
        seq!['\\', 'n']
    } else {
        seq![c]
    }
}

/// An iCalendar text value: backslash, semicolon and comma get a leading
/// backslash, and a line feed becomes the two characters `\n`.
pub open spec fn escape_text(s: Seq<char>) -> Seq<char>
    decreases s.len(),
{
    if s.len() == 0 {
        seq![]
    } else {
        escape_char(s[0]) + escape_text(s.drop_first())
    }
}

/// Escaping distributes over concatenation.
pub proof fn lemma_escape_concat(a: Seq<char>, b: Seq<char>)
    ensures
        escape_text(a + b) == escape_text(a) + escape_text(b),
    decreases a.len(),
{
    if a.len() == 0 {
        assert(a + b =~= b);
        assert(escape_text(a) =~= seq![]);
        assert(escape_text(b) =~= escape_text(a) + escape_text(b));
    } else {
        assert((a + b).drop_first() =~= a.drop_first() + b);
        lemma_escape_concat(a.drop_first(), b);
        assert((a + b)[0] == a[0]);
        assert(escape_text(a + b) =~= escape_char(a[0]) + escape_text(a.drop_first() + b));
        assert(escape_text(a + b) =~= escape_text(a) + escape_text(b));
    }
}

proof fn lemma_escape_push(s: Seq<char>, c: char)
    ensures
        escape_text(s.push(c)) == escape_text(s) + escape_char(c),
{
    lemma_escape_concat(s, seq![c]);
    assert(s.push(c) =~= s + seq![c]);
    assert(seq![c].drop_first() =~= Seq::<char>::empty());
    assert(escape_text(seq![c]) =~= escape_char(c) + escape_text(Seq::<char>::empty()));
    assert(escape_text(seq![c]) =~= escape_char(c));
}

/// Appends `t` escaped as an iCalendar text value.
pub fn push_escaped(s: &mut String, t: &str)
    ensures
        final(s)@ == old(s)@ + escape_text(t@),
{
    let ghost start = s@;
    let v = chars_of(t);
    let mut i: usize = 0;
    while i < v.len()
        invariant
            v@ == t@,
            i <= v.len(),
            s@ == start + escape_text(v@.take(i as int)),
        decreases v.len() - i,
    {
        let c = v[i];
        proof {
            lemma_escape_push(v@.take(i as int), c);
            assert(v@.take(i + 1) =~= v@.take(i as int).push(c));
        }
        if c == '\\' {
            push_char(s, '\\');
            push_char(s, '\\');
        } else if c == ';' {
            push_char(s, '\\');
            push_char(s, ';');
        } else if c == ',' {
            push_char(s, '\\');
            push_char(s, ',');
        } else if c == '\n' {
            push_char(s, '\\');
            push_char(s, 'n');
        } else {
            push_char(s, c);
        }
        i = i + 1;
        assert(s@ =~= start + escape_text(v@.take(i as int)));
    }
    assert(v@.take(v.len() as int) =~= t@);
}

} // verus!

verus! {

/// The number a string of decimal digits stands for.
pub open spec fn digits_value(s: Seq<char>) -> nat
    decreases s.len(),
{
    if s.len() == 0 {
        0
    } else {
        digits_value(s.drop_last()) * 10 + ((s.last() as int - 48) as nat)
    }
}

/// A decimal representation consists of digits only.
pub open spec fn all_digits(s: Seq<char>) -> bool {
    forall|i: int| 0 <= i < s.len() ==> 48 <= (#[trigger] s[i]) as int <= 57
}

/// Decimal representations are read back to the number they represent.
pub proof fn lemma_dec_value(n: nat)
    ensures
        digits_value(dec(n)) == n,
        all_digits(dec(n)),
    decreases n,
{
    if n < 10 {
        assert(dec(n).drop_last() =~= Seq::<char>::empty());
        assert(digits_value(Seq::<char>::empty()) == 0);
        assert(dec(n).last() as int == n + 48);
    } else {
        lemma_dec_value(n / 10);
        assert(dec(n).drop_last() =~= dec(n / 10));
        assert(dec(n).last() as int == n % 10 + 48);
        assert(n == (n / 10) * 10 + n % 10);
    }
}

proof fn lemma_zeros_value(k: nat, s: Seq<char>)
    ensures
        digits_value(Seq::new(k, |i: int| '0') + s) == digits_value(s),
    decreases k + s.len(),
{
    let z = Seq::new(k, |i: int| '0');
    if s.len() == 0 {
        assert(z + s =~= z);
        if k > 0 {
            assert(z.drop_last() =~= Seq::new((k - 1) as nat, |i: int| '0'));
            lemma_zeros_value((k - 1) as nat, s);
            assert(Seq::new((k - 1) as nat, |i: int| '0') + s =~= Seq::new((k - 1) as nat, |i: int| '0'));
        }
    } else {
        assert((z + s).drop_last() =~= z + s.drop_last());
        lemma_zeros_value(k, s.drop_last());
    }
}

/// Zero-padded decimal representations are read back to their number and
/// consist of digits only.
pub proof fn lemma_pad_value(n: nat, w: nat)
    ensures
        digits_value(pad_dec(n, w)) == n,
        all_digits(pad_dec(n, w)),
{
    lemma_dec_value(n);
    if dec(n).len() < w {
        lemma_zeros_value((w - dec(n).len()) as nat, dec(n));
        let z = Seq::new((w - dec(n).len()) as nat, |i: int| '0');
        assert forall|i: int| 0 <= i < pad_dec(n, w).len() implies 48 <= (#[trigger] pad_dec(n, w)[i]) as int <= 57 by {
            if i < z.len() {
                assert(pad_dec(n, w)[i] == '0');
            } else {
                assert(pad_dec(n, w)[i] == dec(n)[i - z.len()]);
            }
        }
    }
}

/// Decimal representation is one-to-one.
pub proof fn lemma_dec_injective(a: nat, b: nat)
    requires
        dec(a) == dec(b),
    ensures
        a == b,
{
    lemma_dec_value(a);
    lemma_dec_value(b);
}

/// Zero-padded representation to a common width is one-to-one.
pub proof fn lemma_pad_injective(a: nat, b: nat, w: nat)
    requires
        pad_dec(a, w) == pad_dec(b, w),
    ensures
        a == b,
{
    lemma_pad_value(a, w);
    lemma_pad_value(b, w);
}

/// A string with a separator that occurs in neither head is split at its
/// first separator only one way.
pub proof fn lemma_split_at_separator(a1: Seq<char>, r1: Seq<char>, a2: Seq<char>, r2: Seq<char>, sep: char)
    requires
        a1 + seq![sep] + r1 == a2 + seq![sep] + r2,
        !a1.contains(sep),
        !a2.contains(sep),
    ensures
        a1 == a2,
        r1 == r2,
{
    let s1 = a1 + seq![sep] + r1;
    let s2 = a2 + seq![sep] + r2;
    if a1.len() < a2.len() {
        assert(s1[a1.len() as int] == sep);
        assert(s2[a1.len() as int] == a2[a1.len() as int]);
        assert(a2.contains(sep));
    } else if a2.len() < a1.len() {
        assert(s2[a2.len() as int] == sep);
        assert(s1[a2.len() as int] == a1[a2.len() as int]);
        assert(a1.contains(sep));
    } else {
        assert(a1 =~= s1.subrange(0, a1.len() as int));
        assert(a2 =~= s2.subrange(0, a2.len() as int));
        assert(r1 =~= s1.subrange(a1.len() as int + 1, s1.len() as int));
        assert(r2 =~= s2.subrange(a2.len() as int + 1, s2.len() as int));
    }
}

/// Digits are neither a separator nor a sign.
pub proof fn lemma_digits_lack(s: Seq<char>, c: char)
    requires
        all_digits(s),
        !(48 <= c as int <= 57),
    ensures
        !s.contains(c),
{
    if s.contains(c) {
        let i = choose|i: int| 0 <= i < s.len() && s[i] == c;
        assert(48 <= s[i] as int <= 57);
    }
}

/// Escaping is one-to-one: the escaped text determines the text.
pub proof fn lemma_escape_injective(a: Seq<char>, b: Seq<char>)
    requires
        escape_text(a) == escape_text(b),
    ensures
        a == b,
    decreases a.len(),
{
    if a.len() == 0 {
        if b.len() > 0 {
            assert(escape_text(b).len() >= escape_char(b[0]).len());
        }
        assert(a =~= b);
    } else {
        assert(b.len() > 0) by {
            if b.len() == 0 {
                assert(escape_text(a).len() >= escape_char(a[0]).len());
            }
        }
        let ea = escape_char(a[0]);
        let eb = escape_char(b[0]);
        let ra = escape_text(a.drop_first());
        let rb = escape_text(b.drop_first());
        assert(escape_text(a) == ea + ra);
        assert(escape_text(b) == eb + rb);
        assert((ea + ra)[0] == (eb + rb)[0]);
        if ea.len() == 2 {
            assert(ea[0] == '\\');
            assert(eb.len() == 2);
            assert((ea + ra)[1] == (eb + rb)[1]);
            assert(ea[1] == eb[1]);
        } else {
            assert(ea[0] != '\\');
            assert(eb.len() == 1);
        }
        assert(a[0] == b[0]);
        assert(ea == eb);
        assert(ra =~= (ea + ra).subrange(ea.len() as int, (ea + ra).len() as int));
        assert(rb =~= (eb + rb).subrange(eb.len() as int, (eb + rb).len() as int));
        lemma_escape_injective(a.drop_first(), b.drop_first());
        assert(a =~= seq![a[0]] + a.drop_first());
        assert(b =~= seq![b[0]] + b.drop_first());
    }
}

/// Escaping changes only backslash, semicolon, comma and line feed: a text
/// that holds none of them is its own escaped form.
pub proof fn lemma_escape_keeps_other(s: Seq<char>)
    requires
        forall|i: int| 0 <= i < s.len() ==> {
            let c = #[trigger] s[i];
            c != '\\' && c != ';' && c != ',' && c != '\n'
        },
    ensures
        escape_text(s) == s,
    decreases s.len(),
{
    if s.len() > 0 {
        let t = s.drop_first();
        assert forall|i: int| 0 <= i < t.len() implies {
            let c = #[trigger] t[i];
            c != '\\' && c != ';' && c != ',' && c != '\n'
        } by {
            assert(t[i] == s[i + 1]);
        }
        lemma_escape_keeps_other(t);
        let c = s[0];
        assert(c != '\\' && c != ';' && c != ',' && c != '\n');
        assert(escape_text(s) =~= s);
    }
}

} // verus!
