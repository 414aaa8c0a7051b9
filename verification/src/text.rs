//! Byte-level text scanning for the decoder: splitting on a separator
//! byte, splitting into lines, and reading unsigned decimal tokens.
use vstd::prelude::*;

verus! {

/// The byte that separates tokens within a line.
pub const SPACE: u8 = 32;

/// The byte that ends a line.
pub const NEWLINE: u8 = 10;

/// The byte a line may carry just before NEWLINE; it belongs to the line
/// ending, not to the line.
pub const CARRIAGE_RETURN: u8 = 13;

/// The optional sign byte in front of an unsigned decimal token.
pub const PLUS_SIGN: u8 = 43;

/// The pieces of `s` between occurrences of `sep`: always one piece more
/// than there are separators, so the empty input has one empty piece and
/// adjacent separators enclose an empty piece.
pub open spec fn split_on(s: Seq<u8>, sep: u8) -> Seq<Seq<u8>>
    decreases s.len(),
{
    if s.len() == 0 {
        seq![Seq::<u8>::empty()]
    } else {
        let prev = split_on(s.drop_last(), sep);
        if s.last() == sep {
            prev.push(Seq::<u8>::empty())
        } else {
            prev.update(prev.len() - 1, prev.last().push(s.last()))
        }
    }
}

/// Splits `s` on single occurrences of `sep`, keeping empty pieces.
pub fn split_bytes(s: &[u8], sep: u8) -> (r: Vec<Vec<u8>>)
    ensures
        r@.len() == split_on(s@, sep).len(),
        forall|k: int| 0 <= k < r@.len() ==> #[trigger] r@[k]@ == split_on(s@, sep)[k],
{
    let mut out: Vec<Vec<u8>> = Vec::new();
    let mut cur: Vec<u8> = Vec::new();
    let mut i: usize = 0;
    proof {
        assert(s@.take(0) =~= Seq::<u8>::empty());
    }
    while i < s.len()
        invariant
            i <= s@.len(),
            out@.len() + 1 == split_on(s@.take(i as int), sep).len(),
            forall|k: int| 0 <= k < out@.len()
                ==> #[trigger] out@[k]@ == split_on(s@.take(i as int), sep)[k],
            cur@ == split_on(s@.take(i as int), sep).last(),
        decreases s@.len() - i,
    {
        proof {
            assert(s@.take(i as int + 1).drop_last() =~= s@.take(i as int));
            assert(s@.take(i as int + 1).last() == s@[i as int]);
        }
        let b = s[i];
        if b == sep {
            out.push(cur);
            cur = Vec::new();
        } else {
            cur.push(b);
        }
        i = i + 1;
    }
    proof {
        assert(s@.take(s@.len() as int) =~= s@);
    }
    out.push(cur);
    out
}

/// One pass of line assembly over `t`: the lines completed so far and the
/// bytes of the line still open.
pub open spec fn lines_acc(t: Seq<u8>) -> (Seq<Seq<u8>>, Seq<u8>)
    decreases t.len(),
{
    if t.len() == 0 {
        (Seq::<Seq<u8>>::empty(), Seq::<u8>::empty())
    } else {
        let acc = lines_acc(t.drop_last());
        if t.last() == NEWLINE {
            (acc.0.push(strip_cr(acc.1)), Seq::<u8>::empty())
        } else {
            (acc.0, acc.1.push(t.last()))
        }
    }
}

/// A line with the CARRIAGE_RETURN of its line ending removed.
pub open spec fn strip_cr(p: Seq<u8>) -> Seq<u8> {
    if p.len() > 0 && p.last() == CARRIAGE_RETURN {
        p.drop_last()
    } else {
        p
    }
}

/// The lines of `t`: pieces ending at NEWLINE bytes, each stripped of one
/// CARRIAGE_RETURN before the NEWLINE. A final piece without a NEWLINE is
/// a line of its own, kept byte for byte; a trailing NEWLINE does not open
/// an empty last line.
pub open spec fn lines_of(t: Seq<u8>) -> Seq<Seq<u8>> {
    let acc = lines_acc(t);
    if t.len() > 0 && t.last() != NEWLINE {
        acc.0.push(acc.1)
    } else {
        acc.0
    }
}

/// Splits `text` into its lines, as `lines_of` describes them.
pub fn split_lines(text: &[u8]) -> (r: Vec<Vec<u8>>)
    ensures
        r@.len() == lines_of(text@).len(),
        forall|k: int| 0 <= k < r@.len() ==> #[trigger] r@[k]@ == lines_of(text@)[k],
{
    let mut out: Vec<Vec<u8>> = Vec::new();
    let mut cur: Vec<u8> = Vec::new();
    let mut i: usize = 0;
    proof {
        assert(text@.take(0) =~= Seq::<u8>::empty());
    }
    while i < text.len()
        invariant
            i <= text@.len(),
            out@.len() == lines_acc(text@.take(i as int)).0.len(),
            forall|k: int| 0 <= k < out@.len()
                ==> #[trigger] out@[k]@ == lines_acc(text@.take(i as int)).0[k],
            cur@ == lines_acc(text@.take(i as int)).1,
        decreases text@.len() - i,
    {
        proof {
            assert(text@.take(i as int + 1).drop_last() =~= text@.take(i as int));
            assert(text@.take(i as int + 1).last() == text@[i as int]);
        }
        let b = text[i];
        if b == NEWLINE {
            if cur.len() > 0 && cur[cur.len() - 1] == CARRIAGE_RETURN {
                cur.pop();
            }
            out.push(cur);
            cur = Vec::new();
        } else {
            cur.push(b);
        }
        i = i + 1;
    }
    proof {
        assert(text@.take(text@.len() as int) =~= text@);
    }
    if text.len() > 0 && text[text.len() - 1] != NEWLINE {
        out.push(cur);
    }
    out
}

/// Whether `b` is a decimal digit byte.
pub open spec fn is_digit(b: u8) -> bool {
    48 <= b && b <= 57
}

/// Whether every byte of `s` is a decimal digit.
pub open spec fn all_digits(s: Seq<u8>) -> bool {
    forall|i: int| 0 <= i < s.len() ==> is_digit(#[trigger] s[i])
}

/// The value of a run of digit bytes, read in base ten.
pub open spec fn digits_value(s: Seq<u8>) -> int
    decreases s.len(),
{
    if s.len() == 0 {
        0
    } else {
        digits_value(s.drop_last()) * 10 + (s.last() - 48)
    }
}

/// The digit bytes of a token: everything after one optional PLUS_SIGN.
pub open spec fn digits_part(s: Seq<u8>) -> Seq<u8> {
    if s.len() > 0 && s[0] == PLUS_SIGN {
        s.skip(1)
    } else {
        s
    }
}

/// Whether `s` is an unsigned decimal token: an optional PLUS_SIGN, then
/// one or more digit bytes.
pub open spec fn is_uint_token(s: Seq<u8>) -> bool {
    digits_part(s).len() > 0 && all_digits(digits_part(s))
}

/// The numeric value of an unsigned decimal token.
pub open spec fn token_value(s: Seq<u8>) -> int {
    digits_value(digits_part(s))
}

/// Whether `s` is an unsigned decimal token whose value fits in a u64.
pub open spec fn is_u64_token(s: Seq<u8>) -> bool {
    is_uint_token(s) && token_value(s) <= u64::MAX
}

/// Whether `s` is an unsigned decimal token whose value fits in a byte.
pub open spec fn is_u8_token(s: Seq<u8>) -> bool {
    is_uint_token(s) && token_value(s) <= 255
}

/// A run of digit bytes never has a negative value.
pub proof fn lemma_digits_value_nonneg(s: Seq<u8>)
    requires
        all_digits(s),
    ensures
        digits_value(s) >= 0,
    decreases s.len(),
{
    if s.len() > 0 {
        assert(all_digits(s.drop_last()));
        lemma_digits_value_nonneg(s.drop_last());
    }
}

/// Reading more digits never lowers the value: any prefix of a run of
/// digit bytes has a value no greater than the whole run.
pub proof fn lemma_digits_value_prefix(s: Seq<u8>, k: int)
    requires
        all_digits(s),
        0 <= k <= s.len(),
    ensures
        digits_value(s.take(k)) <= digits_value(s),
    decreases s.len() - k,
{
    if k == s.len() {
        assert(s.take(k) =~= s);
    } else {
        assert(all_digits(s.take(k)));
        lemma_digits_value_nonneg(s.take(k));
        assert(s.take(k + 1).drop_last() =~= s.take(k));
        assert(digits_value(s.take(k + 1)) >= digits_value(s.take(k)));
        lemma_digits_value_prefix(s, k + 1);
    }
}

/// Reads an unsigned decimal token: an optional leading PLUS_SIGN, then
/// one or more digit bytes whose value fits in a u64. Anything else, the
/// empty token included, is rejected.
pub fn parse_u64_token(tok: &[u8]) -> (r: Option<u64>)
    ensures
        is_u64_token(tok@) ==> r == Some(token_value(tok@) as u64),
        !is_u64_token(tok@) ==> r is None,
{
    let start: usize = if tok.len() > 0 && tok[0] == PLUS_SIGN {
        1
    } else {
        0
    };
    let ghost d = digits_part(tok@);
    proof {
        assert(d =~= tok@.skip(start as int));
    }
    if start >= tok.len() {
        return None;
    }
    let mut val: u64 = 0;
    let mut i: usize = start;
    proof {
        assert(d.take(0) =~= Seq::<u8>::empty());
    }
    while i < tok.len()
        invariant
            start <= i <= tok@.len(),
            start < tok@.len(),
            d == digits_part(tok@),
            d == tok@.skip(start as int),
            all_digits(d.take(i - start)),
            val == digits_value(d.take(i - start)),
        decreases tok@.len() - i,
    {
        let b = tok[i];
        proof {
            assert(d[i - start] == tok@[i as int]);
            assert(d.take(i - start + 1).drop_last() =~= d.take(i - start));
            assert(d.take(i - start + 1).last() == d[i - start]);
        }
        if !(48 <= b && b <= 57) {
            assert(!all_digits(d));
            return None;
        }
        let dv: u64 = (b - 48) as u64;
        if val > (u64::MAX - dv) / 10 {
            proof {
                assert(val * 10 + dv > u64::MAX);
                assert(digits_value(d.take(i - start + 1)) > u64::MAX);
                if all_digits(d) {
                    lemma_digits_value_prefix(d, i - start + 1);
                }
            }
            return None;
        }
        proof {
            assert(val * 10 + dv <= u64::MAX);
        }
        val = val * 10 + dv;
        i = i + 1;
    }
    proof {
        assert(d.take(d.len() as int) =~= d);
    }
    Some(val)
}

/// The byte one pixel channel token stands for: its own value where it is
/// a well-formed byte token, and zero for anything else.
pub open spec fn pixel_byte(s: Seq<u8>) -> u8 {
    if is_u8_token(s) {
        token_value(s) as u8
    } else {
        0
    }
}

/// Reads one pixel channel token leniently: a malformed or out-of-range
/// token falls back to zero instead of failing.
pub fn parse_u8_or_zero(tok: &[u8]) -> (r: u8)
    ensures
        r == pixel_byte(tok@),
{
    proof {
        if is_uint_token(tok@) {
            lemma_digits_value_nonneg(digits_part(tok@));
        }
    }
    match parse_u64_token(tok) {
        Some(v) => if v <= 255 {
            v as u8
        } else {
            0
        },
        None => 0,
    }
}

} // verus!
