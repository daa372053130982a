use vstd::prelude::*;

verus! {

/// The decimal digit character for `d < 10`.
pub open spec fn digit_char(d: nat) -> char {
    if d == 0 {
        '0'
    } else if d == 1 {
        '1'
    } else if d == 2 {
        '2'
    } else if d == 3 {
        '3'
    } else if d == 4 {
        '4'
    } else if d == 5 {
        '5'
    } else if d == 6 {
        '6'
    } else if d == 7 {
        '7'
    } else if d == 8 {
        '8'
    } else {
        '9'
    }
}

/// The numeric value of a digit character (0 for anything else).
pub open spec fn digit_value(c: char) -> nat {
    if c == '1' {
        1
    } else if c == '2' {
        2
    } else if c == '3' {
        3
    } else if c == '4' {
        4
    } else if c == '5' {
        5
    } else if c == '6' {
        6
    } else if c == '7' {
        7
    } else if c == '8' {
        8
    } else if c == '9' {
        9
    } else {
        0
    }
}

/// Decimal rendering of `n` without leading zeros.
pub open spec fn decimal(n: nat) -> Seq<char>
    decreases n,
{
    if n < 10 {
        seq![digit_char(n)]
    } else {
        decimal(n / 10).push(digit_char(n % 10))
    }
}

/// The number that a string of decimal digits denotes.
pub open spec fn digits_value(s: Seq<char>) -> nat
    decreases s.len(),
{
    if s.len() == 0 {
        0
    } else {
        digits_value(s.drop_last()) * 10 + digit_value(s.last())
    }
}

/// A page index zero-padded to at least three digits; wider indices are
/// rendered in full, so no two indices share a rendering.
pub open spec fn padded_index(n: nat) -> Seq<char> {
    if n < 10 {
        seq!['0', '0'] + decimal(n)
    } else if n < 100 {
        seq!['0'] + decimal(n)
    } else {
        decimal(n)
    }
}

/// The name of page `index`: `<padded index>.<ext>`.
pub open spec fn page_name(index: nat, ext: Seq<char>) -> Seq<char> {
    padded_index(index) + seq!['.'] + ext
}

proof fn lemma_digit_round_trip(d: nat)
    requires
        d < 10,
    ensures
        digit_value(digit_char(d)) == d,
{
}

proof fn lemma_decimal_value(n: nat)
    ensures
        digits_value(decimal(n)) == n,
    decreases n,
{
    if n < 10 {
        lemma_digit_round_trip(n);
        let s = seq![digit_char(n)];
        assert(s.drop_last() =~= Seq::<char>::empty());
        assert(digits_value(Seq::<char>::empty()) == 0);
        assert(digits_value(s) == digits_value(s.drop_last()) * 10 + digit_value(s.last()));
    } else {
        lemma_decimal_value(n / 10);
        lemma_digit_round_trip(n % 10);
        let s = decimal(n);
        assert(s.drop_last() =~= decimal(n / 10));
        assert(s.last() == digit_char(n % 10));
        assert(digits_value(s) == digits_value(s.drop_last()) * 10 + digit_value(s.last()));
        assert(n == (n / 10) * 10 + n % 10) by (nonlinear_arith);
    }
}

proof fn lemma_leading_zero_value(s: Seq<char>)
    ensures
        digits_value(seq!['0'] + s) == digits_value(s),
    decreases s.len(),
{
    let t = seq!['0'] + s;
    assert(digits_value(t) == digits_value(t.drop_last()) * 10 + digit_value(t.last()));
    if s.len() == 0 {
        assert(t.drop_last() =~= Seq::<char>::empty());
        assert(digits_value(Seq::<char>::empty()) == 0);
        assert(t.last() == '0');
    } else {
        assert(t.drop_last() =~= seq!['0'] + s.drop_last());
        assert(t.last() == s.last());
        lemma_leading_zero_value(s.drop_last());
        assert(digits_value(s) == digits_value(s.drop_last()) * 10 + digit_value(s.last()));
    }
}

proof fn lemma_padded_value(n: nat)
    ensures
        digits_value(padded_index(n)) == n,
{
    lemma_decimal_value(n);
    if n < 10 {
        lemma_leading_zero_value(decimal(n));
        lemma_leading_zero_value(seq!['0'] + decimal(n));
        assert(seq!['0', '0'] + decimal(n) =~= seq!['0'] + (seq!['0'] + decimal(n)));
    } else if n < 100 {
        lemma_leading_zero_value(decimal(n));
    }
}

/// Distinct page indices get distinct names under the same extension, so
/// every page of a run is written to a file of its own.
pub proof fn lemma_page_names_distinct(a: nat, b: nat, ext: Seq<char>)
    requires
        a != b,
    ensures
        page_name(a, ext) != page_name(b, ext),
{
    if page_name(a, ext) == page_name(b, ext) {
        let len = padded_index(a).len();
        assert(page_name(a, ext).len() == len + 1 + ext.len());
        assert(page_name(b, ext).len() == padded_index(b).len() + 1 + ext.len());
        assert(padded_index(b).len() == len);
        assert(page_name(a, ext).subrange(0, len as int) =~= padded_index(a));
        assert(page_name(b, ext).subrange(0, len as int) =~= padded_index(b));
        lemma_padded_value(a);
        lemma_padded_value(b);
    }
}

fn digit_text(d: u32) -> (r: &'static str)
    requires
        d < 10,
    ensures
        r@ == seq![digit_char(d as nat)],
{
    if d == 0 {
        proof { reveal_strlit("0"); }
        "0"
    } else if d == 1 {
        proof { reveal_strlit("1"); }
        "1"
    } else if d == 2 {
        proof { reveal_strlit("2"); }
        "2"
    } else if d == 3 {
        proof { reveal_strlit("3"); }
        "3"
    } else if d == 4 {
        proof { reveal_strlit("4"); }
        "4"
    } else if d == 5 {
        proof { reveal_strlit("5"); }
        "5"
    } else if d == 6 {
        proof { reveal_strlit("6"); }
        "6"
    } else if d == 7 {
        proof { reveal_strlit("7"); }
        "7"
    } else if d == 8 {
        proof { reveal_strlit("8"); }
        "8"
    } else {
        proof { reveal_strlit("9"); }
        "9"
    }
}

/// Appends the decimal rendering of `n` to `out`.
pub(crate) fn push_decimal(out: &mut String, n: u32)
    ensures
        final(out)@ == old(out)@ + decimal(n as nat),
    decreases n,
{
    if n >= 10 {
        push_decimal(out, n / 10);
    }
    let ghost before = out@;
    out.append(digit_text(n % 10));
    proof {
        if n >= 10 {
            assert(before + seq![digit_char((n % 10) as nat)] =~= old(out)@ + decimal(n as nat));
        } else {
            assert(n % 10 == n);
        }
    }
}

/// The file (and resource) name of page `index`: the index zero-padded to
/// three digits, a dot, then `ext`; `page_file_name(7, "jpg")` is `007.jpg`.
pub fn page_file_name(index: u32, ext: &str) -> (r: String)
    ensures
        r@ == page_name(index as nat, ext@),
{
    let mut s = String::new();
    if index < 10 {
        proof { reveal_strlit("00"); }
        s.append("00");
    } else if index < 100 {
        proof { reveal_strlit("0"); }
        s.append("0");
    }
    push_decimal(&mut s, index);
    proof { reveal_strlit("."); }
    s.append(".");
    s.append(ext);
    assert(s@ =~= page_name(index as nat, ext@));
    s
}

} // verus!
