use vstd::prelude::*;

use crate::error::{CliError, CliErrorView};
use crate::text::{chars_eq, chars_of, copy_range, lower_ascii, push_char, to_ascii_lower, trim, trimmed_range};

verus! {

/// A decimal digit.
pub open spec fn is_digit(c: char) -> bool {
    '0' <= c && c <= '9'
}

/// A `+` or `-` sign.
pub open spec fn is_sign(c: char) -> bool {
    c == '+' || c == '-'
}

/// `m` is `Digit+`, `Digit+ '.' Digit*` or `Digit* '.' Digit+`: digits with
/// at most one point, and at least one digit.
pub open spec fn is_mantissa(m: Seq<char>) -> bool {
    &&& forall|k: int| 0 <= k < m.len() ==> is_digit(#[trigger] m[k]) || m[k] == '.'
    &&& forall|j: int, k: int|
        0 <= j < m.len() && 0 <= k < m.len() && #[trigger] m[j] == '.' && #[trigger] m[k] == '.'
            ==> j == k
    &&& exists|k: int| 0 <= k < m.len() && is_digit(#[trigger] m[k])
}

/// `s` without one leading sign, if it has one.
pub open spec fn unsigned_part(s: Seq<char>) -> Seq<char> {
    if s.len() > 0 && is_sign(s[0]) {
        s.subrange(1, s.len() as int)
    } else {
        s
    }
}

/// `x` is the exponent after an `e`: `Sign? Digit+`.
pub open spec fn is_exponent(x: Seq<char>) -> bool {
    let d = unsigned_part(x);
    d.len() > 0 && forall|k: int| 0 <= k < d.len() ==> is_digit(#[trigger] d[k])
}

/// `b` is `Mantissa ('e' Exponent)?`.
pub open spec fn is_number(b: Seq<char>) -> bool {
    ||| is_mantissa(b)
    ||| exists|i: int|
        0 <= i < b.len() && #[trigger] b[i] == 'e' && is_mantissa(b.take(i)) && is_exponent(
            b.skip(i + 1),
        )
}

/// The lowercase text that `f32::from_str` accepts:
/// `Sign? ( 'inf' | 'infinity' | 'nan' | Number )`.
pub open spec fn is_float_literal(s: Seq<char>) -> bool {
    let b = unsigned_part(s);
    b == "inf"@ || b == "infinity"@ || b == "nan"@ || is_number(b)
}

/// Whether `v[lo..hi]` is a mantissa.
fn mantissa_ok(v: &Vec<char>, lo: usize, hi: usize) -> (r: bool)
    requires
        lo <= hi <= v@.len(),
    ensures
        r == is_mantissa(v@.subrange(lo as int, hi as int)),
{
    let ghost m = v@.subrange(lo as int, hi as int);
    let mut k: usize = lo;
    let mut dot: Option<usize> = None;
    let mut digit: Option<usize> = None;
    while k < hi
        invariant
            lo <= k <= hi <= v@.len(),
            m == v@.subrange(lo as int, hi as int),
            forall|j: int| lo <= j < k ==> is_digit(#[trigger] v@[j]) || v@[j] == '.',
            match dot {
                Some(d) => lo <= d < k && v@[d as int] == '.' && forall|j: int|
                    lo <= j < k && #[trigger] v@[j] == '.' ==> j == d,
                None => forall|j: int| lo <= j < k ==> #[trigger] v@[j] != '.',
            },
            match digit {
                Some(d) => lo <= d < k && is_digit(v@[d as int]),
                None => forall|j: int| lo <= j < k ==> !is_digit(#[trigger] v@[j]),
            },
        decreases hi - k,
    {
        let c = v[k];
        if '0' <= c && c <= '9' {
            digit = Some(k);
        } else if c == '.' {
            if dot.is_some() {
                assert(m[k - lo] == '.' && m[dot.unwrap() - lo] == '.');
                return false;
            }
            dot = Some(k);
        } else {
            assert(!(is_digit(m[k - lo]) || m[k - lo] == '.'));
            return false;
        }
        k = k + 1;
    }
    match digit {
        Some(d) => {
            assert(is_digit(m[d - lo]));
            assert forall|a: int, b: int|
                0 <= a < m.len() && 0 <= b < m.len() && #[trigger] m[a] == '.' && #[trigger] m[b]
                    == '.' implies a == b by {
                assert(v@[a + lo] == '.' && v@[b + lo] == '.');
            }
            assert forall|a: int| 0 <= a < m.len() implies is_digit(#[trigger] m[a]) || m[a]
                == '.' by {
                assert(is_digit(v@[a + lo]) || v@[a + lo] == '.');
            }
            true
        },
        None => {
            assert forall|a: int| 0 <= a < m.len() implies !is_digit(#[trigger] m[a]) by {
                assert(!is_digit(v@[a + lo]));
            }
            false
        },
    }
}

/// Whether `v[lo..hi]` is an exponent.
fn exponent_ok(v: &Vec<char>, lo: usize, hi: usize) -> (r: bool)
    requires
        lo <= hi <= v@.len(),
    ensures
        r == is_exponent(v@.subrange(lo as int, hi as int)),
{
    let ghost x = v@.subrange(lo as int, hi as int);
    let start: usize = if lo < hi && (v[lo] == '+' || v[lo] == '-') {
        lo + 1
    } else {
        lo
    };
    assert(unsigned_part(x) =~= v@.subrange(start as int, hi as int));
    if start == hi {
        return false;
    }
    let mut k: usize = start;
    while k < hi
        invariant
            start <= k <= hi <= v@.len(),
            x == v@.subrange(lo as int, hi as int),
            unsigned_part(x) == v@.subrange(start as int, hi as int),
            forall|j: int| start <= j < k ==> is_digit(#[trigger] v@[j]),
        decreases hi - k,
    {
        let c = v[k];
        if !('0' <= c && c <= '9') {
            assert(!is_digit(unsigned_part(x)[k - start]));
            return false;
        }
        k = k + 1;
    }
    assert forall|j: int| 0 <= j < unsigned_part(x).len() implies is_digit(
        #[trigger] unsigned_part(x)[j],
    ) by {
        assert(is_digit(v@[j + start]));
    }
    true
}

/// Whether the (lowercase) characters `v` are a number that `f32::from_str`
/// accepts.
pub fn float_literal(v: &Vec<char>) -> (r: bool)
    ensures
        r == is_float_literal(v@),
{
    let n = v.len();
    let lo: usize = if n > 0 && (v[0] == '+' || v[0] == '-') {
        1
    } else {
        0
    };
    let ghost b = unsigned_part(v@);
    assert(b =~= v@.subrange(lo as int, n as int));
    let body = copy_range(v, lo, n);
    if chars_eq(&body, "inf") || chars_eq(&body, "infinity") || chars_eq(&body, "nan") {
        return true;
    }
    let mut p: usize = lo;
    while p < n && v[p] != 'e'
        invariant
            lo <= p <= n,
            n == v@.len(),
            forall|j: int| lo <= j < p ==> v@[j] != 'e',
        decreases n - p,
    {
        p = p + 1;
    }
    if p == n {
        let r = mantissa_ok(v, lo, n);
        assert forall|i: int| 0 <= i < b.len() implies #[trigger] b[i] != 'e' by {
            assert(v@[i + lo] != 'e');
        }
        return r;
    }
    let q = p - lo;
    assert(b[q as int] == 'e');
    assert(!is_mantissa(b)) by {
        if is_mantissa(b) {
            assert(is_digit(b[q as int]) || b[q as int] == '.');
        }
    }
    assert(b.take(q as int) =~= v@.subrange(lo as int, p as int));
    assert(b.skip(q + 1) =~= v@.subrange(p + 1, n as int));
    let r = mantissa_ok(v, lo, p) && exponent_ok(v, p + 1, n);
    assert forall|i: int|
        0 <= i < b.len() && #[trigger] b[i] == 'e' && i != q implies !is_mantissa(b.take(i)) by {
        if i < q {
            assert(v@[i + lo] != 'e');
        } else {
            let t = b.take(i);
            assert(t[q as int] == 'e');
            if is_mantissa(t) {
                assert(is_digit(t[q as int]) || t[q as int] == '.');
            }
        }
    }
    r
}

/// A paper size named on the command line.
pub enum PaperSize {
    A3,
    A4,
    A5,
    Letter,
    Legal,
    Tabloid,
    /// `WIDTHxHEIGHT` in points, each a number in the syntax of `f32::from_str`.
    Custom { width: String, height: String },
}

/// A `PaperSize` with its strings taken as character sequences.
pub enum PaperView {
    A3,
    A4,
    A5,
    Letter,
    Legal,
    Tabloid,
    Custom { width: Seq<char>, height: Seq<char> },
}

impl View for PaperSize {
    type V = PaperView;

    open spec fn view(&self) -> PaperView {
        match self {
            PaperSize::A3 => PaperView::A3,
            PaperSize::A4 => PaperView::A4,
            PaperSize::A5 => PaperView::A5,
            PaperSize::Letter => PaperView::Letter,
            PaperSize::Legal => PaperView::Legal,
            PaperSize::Tabloid => PaperView::Tabloid,
            PaperSize::Custom { width, height } => PaperView::Custom {
                width: width@,
                height: height@,
            },
        }
    }
}

/// The width and height of a named paper size in ten-thousandths of a PDF
/// point; `None` for a custom size, whose numbers are text.
pub open spec fn named_points_e4(p: PaperView) -> Option<(u32, u32)> {
    match p {
        PaperView::A3 => Some((8418898u32, 11905512u32)),
        PaperView::A4 => Some((5952756u32, 8418898u32)),
        PaperView::A5 => Some((4195276u32, 5952756u32)),
        PaperView::Letter => Some((6120000u32, 7920000u32)),
        PaperView::Legal => Some((6120000u32, 10080000u32)),
        PaperView::Tabloid => Some((7920000u32, 12240000u32)),
        PaperView::Custom { .. } => None,
    }
}

impl PaperSize {
    /// The width and height of a named size in ten-thousandths of a PDF
    /// point (A4 is 595.2756 x 841.8898 points); `None` for `Custom`.
    pub fn points_e4(&self) -> (d: Option<(u32, u32)>)
        ensures
            d == named_points_e4(self@),
            self@ is A3 ==> d == Some((8418898u32, 11905512u32)),
            self@ is A4 ==> d == Some((5952756u32, 8418898u32)),
            self@ is A5 ==> d == Some((4195276u32, 5952756u32)),
            self@ is Letter ==> d == Some((6120000u32, 7920000u32)),
            self@ is Legal ==> d == Some((6120000u32, 10080000u32)),
            self@ is Tabloid ==> d == Some((7920000u32, 12240000u32)),
            self@ is Custom ==> d is None,
    {
        match self {
            PaperSize::A3 => Some((8418898u32, 11905512u32)),
            PaperSize::A4 => Some((5952756u32, 8418898u32)),
            PaperSize::A5 => Some((4195276u32, 5952756u32)),
            PaperSize::Letter => Some((6120000u32, 7920000u32)),
            PaperSize::Legal => Some((6120000u32, 10080000u32)),
            PaperSize::Tabloid => Some((7920000u32, 12240000u32)),
            PaperSize::Custom { .. } => None,
        }
    }
}

/// The named sizes in points: A3 841.8898 x 1190.5512, A4 595.2756 x
/// 841.8898, A5 419.5276 x 595.2756, Letter 612 x 792, Legal 612 x 1008,
/// Tabloid 792 x 1224 (in ten-thousandths of a point); every named size is
/// portrait, and no two named sizes have the same dimensions.
pub proof fn lemma_named_sizes(p: PaperView, q: PaperView)
    ensures
        named_points_e4(PaperView::A3) == Some((8418898u32, 11905512u32)),
        named_points_e4(PaperView::A4) == Some((5952756u32, 8418898u32)),
        named_points_e4(PaperView::A5) == Some((4195276u32, 5952756u32)),
        named_points_e4(PaperView::Letter) == Some((6120000u32, 7920000u32)),
        named_points_e4(PaperView::Legal) == Some((6120000u32, 10080000u32)),
        named_points_e4(PaperView::Tabloid) == Some((7920000u32, 12240000u32)),
        named_points_e4(p) matches Some((w, h)) ==> w < h,
        named_points_e4(p) is Some && named_points_e4(p) == named_points_e4(q) ==> p == q,
{
}

/// `i` is the first position of `c` in `s`.
pub open spec fn first_at(s: Seq<char>, i: int, c: char) -> bool {
    0 <= i < s.len() && s[i] == c && forall|k: int| 0 <= k < i ==> #[trigger] s[k] != c
}

/// The paper size that a `--paper` value names: the names are matched
/// without regard to ASCII case; anything else is `WIDTHxHEIGHT`, split at
/// the first `x` (or `X`), each side trimmed of white space.
pub open spec fn paper_of(s: Seq<char>) -> Result<PaperView, CliErrorView> {
    let l = lower_ascii(s);
    if l == "a3"@ {
        Ok(PaperView::A3)
    } else if l == "a4"@ {
        Ok(PaperView::A4)
    } else if l == "a5"@ {
        Ok(PaperView::A5)
    } else if l == "letter"@ {
        Ok(PaperView::Letter)
    } else if l == "legal"@ {
        Ok(PaperView::Legal)
    } else if l == "tabloid"@ {
        Ok(PaperView::Tabloid)
    } else if exists|i: int| first_at(l, i, 'x') {
        let i = choose|i: int| first_at(l, i, 'x');
        let w = trim(l.take(i));
        let h = trim(l.skip(i + 1));
        if !is_float_literal(w) {
            Err(CliErrorView::BadWidth(s))
        } else if !is_float_literal(h) {
            Err(CliErrorView::BadHeight(s))
        } else {
            Ok(PaperView::Custom { width: w, height: h })
        }
    } else {
        Err(CliErrorView::UnknownPaperSize(s))
    }
}

/// Paper names and the `x` of `WIDTHxHEIGHT` are read without regard to
/// ASCII case: two arguments that differ only in it are both accepted or
/// both refused, and when accepted they name the same size.
pub proof fn lemma_paper_case_insensitive(s: Seq<char>, t: Seq<char>)
    requires
        lower_ascii(s) == lower_ascii(t),
    ensures
        paper_of(s) is Ok <==> paper_of(t) is Ok,
        paper_of(s) is Ok ==> paper_of(s) == paper_of(t),
{
}

/// Each size name, in any ASCII case, names its own size: `a3`, `a4`,
/// `a5`, `letter`, `legal` and `tabloid`.
pub proof fn lemma_paper_names(s: Seq<char>)
    ensures
        lower_ascii(s) == "a3"@ ==> paper_of(s) == Ok::<PaperView, CliErrorView>(PaperView::A3),
        lower_ascii(s) == "a4"@ ==> paper_of(s) == Ok::<PaperView, CliErrorView>(PaperView::A4),
        lower_ascii(s) == "a5"@ ==> paper_of(s) == Ok::<PaperView, CliErrorView>(PaperView::A5),
        lower_ascii(s) == "letter"@ ==> paper_of(s) == Ok::<PaperView, CliErrorView>(
            PaperView::Letter,
        ),
        lower_ascii(s) == "legal"@ ==> paper_of(s) == Ok::<PaperView, CliErrorView>(
            PaperView::Legal,
        ),
        lower_ascii(s) == "tabloid"@ ==> paper_of(s) == Ok::<PaperView, CliErrorView>(
            PaperView::Tabloid,
        ),
{
    reveal_strlit("a3");
    reveal_strlit("a4");
    reveal_strlit("a5");
    reveal_strlit("letter");
    reveal_strlit("legal");
    reveal_strlit("tabloid");
    assert("a3"@[1] == '3' && "a4"@[1] == '4' && "a5"@[1] == '5');
    assert("letter"@[1] == 'e' && "legal"@.len() == 5 && "tabloid"@.len() == 7);
}

/// The string made of the characters `v`.
pub fn string_of(v: &Vec<char>) -> (s: String)
    ensures
        s@ == v@,
{
    let mut s = String::new();
    let mut k: usize = 0;
    while k < v.len()
        invariant
            k <= v@.len(),
            s@ == v@.take(k as int),
        decreases v@.len() - k,
    {
        push_char(&mut s, v[k]);
        k = k + 1;
        assert(s@ =~= v@.take(k as int));
    }
    assert(v@.take(v@.len() as int) =~= v@);
    s
}

/// Resolves a paper-size argument: `A3`, `A4`, `A5`, `Letter`, `Legal`,
/// `Tabloid` (any ASCII case), or `WIDTHxHEIGHT` in points.
pub fn parse_paper(s: &str) -> (r: Result<PaperSize, CliError>)
    ensures
        match r {
            Ok(p) => paper_of(s@) == Ok::<PaperView, CliErrorView>(p@),
            Err(e) => paper_of(s@) == Err::<PaperView, CliErrorView>(e@),
        },
{
    let l = to_ascii_lower(&chars_of(s));
    if chars_eq(&l, "a3") {
        return Ok(PaperSize::A3);
    } else if chars_eq(&l, "a4") {
        return Ok(PaperSize::A4);
    } else if chars_eq(&l, "a5") {
        return Ok(PaperSize::A5);
    } else if chars_eq(&l, "letter") {
        return Ok(PaperSize::Letter);
    } else if chars_eq(&l, "legal") {
        return Ok(PaperSize::Legal);
    } else if chars_eq(&l, "tabloid") {
        return Ok(PaperSize::Tabloid);
    }
    let n = l.len();
    let mut i: usize = 0;
    while i < n && l[i] != 'x'
        invariant
            i <= n,
            n == l@.len(),
            forall|k: int| 0 <= k < i ==> l@[k] != 'x',
        decreases n - i,
    {
        i = i + 1;
    }
    if i == n {
        assert forall|j: int| !first_at(l@, j, 'x') by {
            if 0 <= j < n {
                assert(l@[j] != 'x');
            }
        }
        return Err(CliError::UnknownPaperSize(String::from_str(s)));
    }
    assert(first_at(l@, i as int, 'x'));
    proof {
        let c = choose|j: int| first_at(l@, j, 'x');
        if c < i {
            assert(l@[c] != 'x');
        } else if c > i {
            assert(l@[i as int] != 'x');
        }
    }
    assert(l@.take(i as int) =~= l@.subrange(0, i as int));
    assert(l@.skip(i + 1) =~= l@.subrange(i + 1, n as int));
    let w = trimmed_range(&l, 0, i);
    let h = trimmed_range(&l, i + 1, n);
    if !float_literal(&w) {
        return Err(CliError::BadWidth(String::from_str(s)));
    }
    if !float_literal(&h) {
        return Err(CliError::BadHeight(String::from_str(s)));
    }
    Ok(PaperSize::Custom { width: string_of(&w), height: string_of(&h) })
}

} // verus!
