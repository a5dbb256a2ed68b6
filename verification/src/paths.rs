use vstd::prelude::*;

use crate::text::push_char;

verus! {

/// The highest number that the search for a free output name tries.
pub const LAST_DOCUMENT_NUMBER: u32 = 0x7fff_ffff;

/// The character of a decimal digit `d < 10`.
pub open spec fn digit_char(d: nat) -> char {
    ((d + 48) as u8) as char
}

/// The decimal digits of `n`, most significant first, without leading zeros.
pub open spec fn decimal(n: nat) -> Seq<char>
    decreases n,
{
    if n < 10 {
        seq![digit_char(n)]
    } else {
        decimal(n / 10).push(digit_char(n % 10))
    }
}

/// The number that a string of decimal digits spells.
pub open spec fn digits_value(s: Seq<char>) -> int
    decreases s.len(),
{
    if s.len() == 0 {
        0
    } else {
        digits_value(s.drop_last()) * 10 + ((s.last() as u32) - 48)
    }
}

/// Reading back the decimal digits of `n` gives `n`.
pub proof fn lemma_decimal_value(n: nat)
    ensures
        digits_value(decimal(n)) == n,
    decreases n,
{
    let d = n % 10;
    assert(((d + 48) as u8) as char as u32 == d + 48) by {
        assert(d < 10);
    }
    let s = decimal(n);
    assert(s.last() == digit_char(d));
    assert((s.last() as u32) - 48 == d);
    assert(digits_value(s) == digits_value(s.drop_last()) * 10 + ((s.last() as u32) - 48));
    if n >= 10 {
        lemma_decimal_value(n / 10);
        assert(s.drop_last() =~= decimal(n / 10));
        assert((n / 10) * 10 + d == n);
    } else {
        assert(s.drop_last() =~= Seq::<char>::empty());
        assert(d == n);
    }
}

/// `decimal(n)` is the usual decimal spelling of `n`: it is made of digits
/// only, has no leading zero (unless it is `0`), and reads back as `n`.
pub proof fn lemma_decimal_spelling(n: nat)
    ensures
        decimal(n).len() >= 1,
        forall|k: int| 0 <= k < decimal(n).len() ==> '0' <= #[trigger] decimal(n)[k] <= '9',
        n > 0 ==> decimal(n)[0] != '0',
        digits_value(decimal(n)) == n,
    decreases n,
{
    lemma_decimal_value(n);
    let d = n % 10;
    assert(((d + 48) as u8) as char as u32 == d + 48);
    if n >= 10 {
        lemma_decimal_spelling(n / 10);
        let s = decimal(n);
        assert forall|k: int| 0 <= k < s.len() implies '0' <= #[trigger] s[k] <= '9' by {
            if k < s.len() - 1 {
                assert(s[k] == decimal(n / 10)[k]);
            }
        }
        assert(s[0] == decimal(n / 10)[0]);
    } else {
        assert(decimal(n)[0] == digit_char(n));
    }
}

/// Every candidate name is `Document.pdf` or `Document-<n>.pdf` with `n`
/// spelled in decimal; in particular every candidate ends in `.pdf`.
pub proof fn lemma_document_name_shape(n: nat)
    requires
        n >= 1,
    ensures
        n == 1 ==> document_name(n) == "Document.pdf"@,
        n >= 2 ==> document_name(n) == "Document-"@ + decimal(n) + ".pdf"@,
        document_name(n).len() >= 4,
        document_name(n).skip(document_name(n).len() - 4) == ".pdf"@,
{
    reveal_strlit("Document.pdf");
    reveal_strlit(".pdf");
    if n >= 2 {
        let a = "Document-"@ + decimal(n);
        assert(document_name(n) == a + ".pdf"@);
        assert((a + ".pdf"@).skip(a.len() as int) =~= ".pdf"@);
    } else {
        assert("Document.pdf"@.skip(8) =~= ".pdf"@);
    }
}

/// Different numbers have different decimal spellings.
pub proof fn lemma_decimal_injective(m: nat, n: nat)
    requires
        decimal(m) == decimal(n),
    ensures
        m == n,
{
    lemma_decimal_value(m);
    lemma_decimal_value(n);
}

/// Appends the decimal digits of `n` to `s`.
fn push_decimal(s: &mut String, n: u32)
    ensures
        final(s)@ == old(s)@ + decimal(n as nat),
    decreases n,
{
    if n >= 10 {
        push_decimal(s, n / 10);
    }
    let d: u8 = (n % 10) as u8;
    push_char(s, (d + 48u8) as char);
    assert(digit_char((n % 10) as nat) == (d + 48u8) as char);
}

/// The `n`-th name that the output search tries: `Document.pdf` first,
/// then `Document-2.pdf`, `Document-3.pdf`, ...
pub open spec fn document_name(n: nat) -> Seq<char> {
    if n <= 1 {
        "Document.pdf"@
    } else {
        "Document-"@ + decimal(n) + ".pdf"@
    }
}

/// The `n`-th candidate output name (`n >= 1`).
pub fn document_path(n: u32) -> (name: String)
    requires
        n >= 1,
    ensures
        name@ == document_name(n as nat),
        n == 1 ==> name@ == "Document.pdf"@,
        n >= 2 ==> name@ == "Document-"@ + decimal(n as nat) + ".pdf"@,
{
    if n == 1 {
        String::from_str("Document.pdf")
    } else {
        let mut s = String::from_str("Document-");
        push_decimal(&mut s, n);
        s.append(".pdf");
        s
    }
}

/// The search never tries a name twice: the candidates for different
/// numbers are different names.
pub proof fn lemma_document_names_distinct(m: nat, n: nat)
    requires
        1 <= m,
        1 <= n,
        m != n,
    ensures
        document_name(m) != document_name(n),
{
    reveal_strlit("Document.pdf");
    reveal_strlit("Document-");
    reveal_strlit(".pdf");
    if m >= 2 && n >= 2 {
        let a = document_name(m);
        let b = document_name(n);
        if a == b {
            let dm = decimal(m);
            let dn = decimal(n);
            assert(a.len() == 13 + dm.len());
            assert(dm =~= a.subrange(9, 9 + dm.len() as int));
            assert(dn =~= b.subrange(9, 9 + dn.len() as int));
            lemma_decimal_injective(m, n);
        }
    } else if m >= 2 {
        assert(document_name(m)[8] == '-');
        assert(document_name(n)[8] == '.');
    } else {
        assert(document_name(n)[8] == '-');
        assert(document_name(m)[8] == '.');
    }
}

/// Asking `is_taken` about some string spelling `name` answered `answer`.
pub open spec fn answered<F: Fn(&str) -> bool>(is_taken: F, name: Seq<char>, answer: bool) -> bool {
    exists|p: &str| p@ == name && call_ensures(is_taken, (p,), answer)
}

/// The first of `Document.pdf`, `Document-2.pdf`, `Document-3.pdf`, ... for
/// which `is_taken` answers `false`, asking in that order. `None` when it
/// answers `true` for every name up to number `LAST_DOCUMENT_NUMBER`.
pub fn next_document_path<F: Fn(&str) -> bool>(is_taken: F) -> (r: Option<String>)
    requires
        forall|p: &str| call_requires(is_taken, (p,)),
    ensures
        r matches Some(s) ==> exists|n: int|
            1 <= n <= LAST_DOCUMENT_NUMBER && s@ == #[trigger] document_name(n as nat) && answered(
                is_taken,
                s@,
                false,
            ) && forall|k: int| 1 <= k < n ==> answered(is_taken, #[trigger] document_name(k as nat), true),
        r is None ==> forall|k: int|
            1 <= k <= LAST_DOCUMENT_NUMBER ==> answered(is_taken, #[trigger] document_name(k as nat), true),
{
    let mut n: u32 = 1;
    while n <= LAST_DOCUMENT_NUMBER
        invariant
            1 <= n <= LAST_DOCUMENT_NUMBER + 1,
            forall|p: &str| call_requires(is_taken, (p,)),
            forall|k: int| 1 <= k < n ==> answered(is_taken, #[trigger] document_name(k as nat), true),
        decreases LAST_DOCUMENT_NUMBER + 1 - n,
    {
        let name = document_path(n);
        let taken = is_taken(name.as_str());
        if !taken {
            assert(answered(is_taken, name@, false));
            let ghost w = n as int;
            assert(name@ == document_name(w as nat));
            assert(forall|k: int| 1 <= k < w ==> answered(is_taken, #[trigger] document_name(k as nat), true));
            assert(exists|m: int|
                1 <= m <= LAST_DOCUMENT_NUMBER && name@ == #[trigger] document_name(m as nat)
                    && answered(is_taken, name@, false) && forall|k: int|
                    1 <= k < m ==> answered(is_taken, #[trigger] document_name(k as nat), true));
            return Some(name);
        }
        assert(answered(is_taken, document_name(n as nat), true));
        n = n + 1;
    }
    None
}

} // verus!
