//! Byte-level text helpers shared by the solvers: splitting input into
//! lines and fields, and reading decimal numbers.
//!
//! The solvers work on ASCII puzzle text, so everything here operates on
//! byte strings.

use vstd::prelude::*;

verus! {

/// `b` is an ASCII decimal digit.
pub open spec fn is_digit(b: u8) -> bool {
    48 <= b <= 57
}

/// Every byte of `s` is a decimal digit.
pub open spec fn all_digits(s: Seq<u8>) -> bool {
    forall|i: int| 0 <= i < s.len() ==> is_digit(#[trigger] s[i])
}

/// The number denoted by a digit string, most significant digit first.
pub open spec fn dec_val(s: Seq<u8>) -> int
    decreases s.len(),
{
    if s.len() == 0 {
        0
    } else {
        dec_val(s.drop_last()) * 10 + s.last() - 48
    }
}

/// A digit string denotes a number no smaller than any of its prefixes'.
proof fn lemma_dec_val_grows(s: Seq<u8>, i: int)
    requires
        all_digits(s),
        0 <= i <= s.len(),
    ensures
        dec_val(s) >= dec_val(s.take(i)) >= 0,
    decreases s.len() - i,
{
    if i == s.len() {
        assert(s.take(i) =~= s);
        lemma_dec_val_nonneg(s);
    } else {
        lemma_dec_val_grows(s, i + 1);
        assert(s.take(i + 1).drop_last() =~= s.take(i));
        lemma_dec_val_nonneg(s.take(i));
    }
}

/// A digit string denotes a nonnegative number.
proof fn lemma_dec_val_nonneg(s: Seq<u8>)
    requires
        all_digits(s),
    ensures
        dec_val(s) >= 0,
    decreases s.len(),
{
    if s.len() > 0 {
        assert(all_digits(s.drop_last()));
        lemma_dec_val_nonneg(s.drop_last());
        assert(is_digit(s.last()));
    }
}

/// Reads an unsigned decimal number: defined exactly when `s` is nonempty,
/// wholly digits, and its value fits in a `u64`.
pub fn parse_u64(s: &[u8]) -> (r: Option<u64>)
    ensures
        r is Some <==> s@.len() > 0 && all_digits(s@) && dec_val(s@) <= u64::MAX,
        r matches Some(v) ==> v == dec_val(s@),
{
    let n = s.len();
    if n == 0 {
        return None;
    }
    let mut acc: u64 = 0;
    for i in 0..n
        invariant
            n == s@.len(),
            all_digits(s@.take(i as int)),
            acc == dec_val(s@.take(i as int)),
    {
        let b = s[i];
        if b < 48 || b > 57 {
            assert(!is_digit(s@[i as int]));
            return None;
        }
        let d = (b - 48) as u64;
        proof {
            assert(s@.take(i + 1).drop_last() =~= s@.take(i as int));
            assert(s@.take(i + 1).last() == s@[i as int]);
            lemma_dec_val_nonneg(s@.take(i as int));
        }
        let wide = (acc as u128) * 10 + (d as u128);
        if wide > u64::MAX as u128 {
            proof {
                if all_digits(s@) {
                    lemma_dec_val_grows(s@, i + 1);
                }
            }
            return None;
        }
        acc = wide as u64;
    }
    proof {
        assert(s@.take(n as int) =~= s@);
    }
    Some(acc)
}

/// A signed decimal literal: an optional `+` or `-` sign before at least
/// one digit.
pub open spec fn int_text(s: Seq<u8>) -> bool {
    if s.len() > 0 && (s[0] == 43 || s[0] == 45) {
        s.len() > 1 && all_digits(s.skip(1))
    } else {
        s.len() > 0 && all_digits(s)
    }
}

/// The value a signed decimal literal denotes.
pub open spec fn int_val(s: Seq<u8>) -> int {
    if s.len() > 0 && s[0] == 45 {
        -dec_val(s.skip(1))
    } else if s.len() > 0 && s[0] == 43 {
        dec_val(s.skip(1))
    } else {
        dec_val(s)
    }
}

/// Reads a signed decimal number: defined exactly when `s` is a signed
/// decimal literal whose value fits in an `i64`.
pub fn parse_i64(s: &[u8]) -> (r: Option<i64>)
    ensures
        r is Some <==> int_text(s@) && i64::MIN <= int_val(s@) <= i64::MAX,
        r matches Some(v) ==> v == int_val(s@),
{
    let n = s.len();
    if n == 0 {
        return None;
    }
    let b0 = s[0];
    if b0 == 45 {
        let rest = &s[1..n];
        assert(rest@ =~= s@.skip(1));
        match parse_u64(rest) {
            Some(v) => {
                if v <= 0x8000_0000_0000_0000u64 {
                    proof {
                        if all_digits(s@.skip(1)) {
                            lemma_dec_val_nonneg(s@.skip(1));
                        }
                    }
                    Some((-(v as i128)) as i64)
                } else {
                    None
                }
            },
            None => None,
        }
    } else if b0 == 43 {
        let rest = &s[1..n];
        assert(rest@ =~= s@.skip(1));
        match parse_u64(rest) {
            Some(v) => {
                if v <= i64::MAX as u64 {
                    Some(v as i64)
                } else {
                    None
                }
            },
            None => None,
        }
    } else {
        match parse_u64(s) {
            Some(v) => {
                if v <= i64::MAX as u64 {
                    Some(v as i64)
                } else {
                    None
                }
            },
            None => None,
        }
    }
}

/// The two byte strings hold the same bytes.
pub fn bytes_eq(a: &[u8], b: &[u8]) -> (r: bool)
    ensures
        r == (a@ == b@),
{
    let n = a.len();
    if n != b.len() {
        assert(a@ !~= b@);
        return false;
    }
    for i in 0..n
        invariant
            n == a@.len(),
            n == b@.len(),
            forall|j: int| 0 <= j < i ==> a@[j] == b@[j],
    {
        if a[i] != b[i] {
            return false;
        }
    }
    assert(a@ =~= b@);
    true
}

/// The views of a list of byte vectors.
pub open spec fn views_of(v: Seq<Vec<u8>>) -> Seq<Seq<u8>> {
    Seq::new(v.len(), |i: int| v[i]@)
}

/// `s` split at every occurrence of `sep`: the pieces between separators,
/// empty pieces kept, so an input with `k` separators yields `k + 1`
/// pieces.
pub open spec fn split_at(s: Seq<u8>, sep: u8) -> Seq<Seq<u8>>
    decreases s.len(),
{
    if s.len() == 0 {
        seq![Seq::<u8>::empty()]
    } else {
        let rest = split_at(s.drop_last(), sep);
        if s.last() == sep {
            rest.push(Seq::empty())
        } else {
            rest.update(rest.len() - 1, rest.last().push(s.last()))
        }
    }
}

/// A split always yields at least one piece.
pub proof fn lemma_split_at_len(s: Seq<u8>, sep: u8)
    ensures
        split_at(s, sep).len() >= 1,
    decreases s.len(),
{
    if s.len() > 0 {
        lemma_split_at_len(s.drop_last(), sep);
    }
}

/// Splits `s` at every occurrence of `sep`, exactly as `split_at`
/// describes; empty pieces are kept and none contains `sep`.
pub fn split_byte(s: &[u8], sep: u8) -> (r: Vec<Vec<u8>>)
    ensures
        views_of(r@) == split_at(s@, sep),
        r@.len() >= 1,
        forall|i: int, j: int|
            0 <= i < r@.len() && 0 <= j < r@[i]@.len() ==> #[trigger] r@[i]@[j] != sep,
{
    let n = s.len();
    let mut out: Vec<Vec<u8>> = Vec::new();
    let mut piece: Vec<u8> = Vec::new();
    proof {
        assert(views_of(out@).push(piece@) =~= split_at(s@.take(0), sep));
    }
    for i in 0..n
        invariant
            n == s@.len(),
            views_of(out@).push(piece@) == split_at(s@.take(i as int), sep),
            forall|k: int, j: int|
                0 <= k < out@.len() && 0 <= j < out@[k]@.len() ==> #[trigger] out@[k]@[j] != sep,
            forall|j: int| 0 <= j < piece@.len() ==> piece@[j] != sep,
    {
        let b = s[i];
        proof {
            assert(s@.take(i + 1).drop_last() =~= s@.take(i as int));
            assert(s@.take(i + 1).last() == s@[i as int]);
            lemma_split_at_len(s@.take(i as int), sep);
        }
        let ghost before = views_of(out@).push(piece@);
        if b == sep {
            out.push(piece);
            piece = Vec::new();
            proof {
                assert(views_of(out@).push(piece@) =~= before.push(Seq::<u8>::empty()));
            }
        } else {
            piece.push(b);
            proof {
                assert(views_of(out@).push(piece@) =~= before.update(
                    before.len() - 1,
                    before.last().push(b),
                ));
            }
        }
    }
    proof {
        assert(s@.take(n as int) =~= s@);
    }
    out.push(piece);
    proof {
        assert(views_of(out@) =~= split_at(s@, sep));
    }
    out
}

/// The lines of `s`, as `str::lines` sees them: the pieces between
/// newline bytes, each with a trailing carriage return stripped, and no
/// final empty line for text that ends with a newline.
pub open spec fn lines_of(s: Seq<u8>) -> Seq<Seq<u8>> {
    if s.len() == 0 {
        Seq::empty()
    } else {
        let p = split_at(s, 10);
        let q = if p.last().len() == 0 {
            p.drop_last()
        } else {
            p
        };
        q.map_values(
            |l: Seq<u8>|
                if l.len() > 0 && l.last() == 13 {
                    l.drop_last()
                } else {
                    l
                },
        )
    }
}

/// The lines of `s`, exactly as `lines_of` describes them; none contains
/// a newline byte.
pub fn split_lines(s: &[u8]) -> (r: Vec<Vec<u8>>)
    ensures
        views_of(r@) == lines_of(s@),
        forall|i: int, j: int|
            0 <= i < r@.len() && 0 <= j < r@[i]@.len() ==> #[trigger] r@[i]@[j] != 10,
{
    if s.len() == 0 {
        let r: Vec<Vec<u8>> = Vec::new();
        assert(views_of(r@) =~= lines_of(s@));
        return r;
    }
    let mut pieces = split_byte(s, 10);
    let last = pieces.len() - 1;
    if pieces[last].len() == 0 {
        pieces.pop();
        proof {
            assert(views_of(pieces@) =~= split_at(s@, 10).drop_last());
        }
    }
    let ghost q = views_of(pieces@);
    proof {
        assert(lines_of(s@) == q.map_values(
            |l: Seq<u8>|
                if l.len() > 0 && l.last() == 13 {
                    l.drop_last()
                } else {
                    l
                },
        ));
        assert(lines_of(s@).len() == q.len());
    }
    let n = pieces.len();
    let mut out: Vec<Vec<u8>> = Vec::new();
    for i in 0..n
        invariant
            n == pieces@.len(),
            q == views_of(pieces@),
            lines_of(s@) == q.map_values(
                (|l: Seq<u8>|
                    if l.len() > 0 && l.last() == 13 {
                        l.drop_last()
                    } else {
                        l
                    }),
            ),
            lines_of(s@).len() == n,
            out@.len() == i,
            forall|k: int| 0 <= k < i ==> #[trigger] out@[k]@ == lines_of(s@)[k],
            forall|k: int, j: int|
                0 <= k < pieces@.len() && 0 <= j < pieces@[k]@.len() ==> #[trigger] pieces@[k]@[j]
                    != 10,
            forall|k: int, j: int|
                0 <= k < out@.len() && 0 <= j < out@[k]@.len() ==> #[trigger] out@[k]@[j] != 10,
    {
        let mut line = pieces[i].clone();
        assert(line@ =~= pieces@[i as int]@);
        assert(line@ == q[i as int]);
        if line.len() > 0 && line[line.len() - 1] == 13 {
            line.pop();
        }
        proof {
            assert(lines_of(s@)[i as int] == (if q[i as int].len() > 0 && q[i as int].last() == 13 {
                q[i as int].drop_last()
            } else {
                q[i as int]
            }));
        }
        assert(line@ == lines_of(s@)[i as int]);
        assert(forall|j: int| 0 <= j < line@.len() ==> line@[j] != 10);
        out.push(line);
    }
    proof {
        assert(views_of(out@) =~= lines_of(s@));
    }
    out
}

/// `s` without leading and trailing blanks (spaces and tabs): a
/// contiguous piece of `s` that neither starts nor ends with a blank.
pub fn trim(s: &[u8]) -> (r: Vec<u8>)
    ensures
        r@.len() <= s@.len(),
        exists|k: int|
            0 <= k <= s@.len() - r@.len() && r@ == #[trigger] s@.subrange(k, k + r@.len()),
        r@.len() > 0 ==> r@[0] != 32 && r@[0] != 9,
        r@.len() > 0 ==> r@[r@.len() - 1] != 32 && r@[r@.len() - 1] != 9,
{
    let n = s.len();
    let mut start: usize = 0;
    while start < n && (s[start] == 32 || s[start] == 9)
        invariant
            start <= n,
            n == s@.len(),
        decreases n - start,
    {
        start = start + 1;
    }
    let mut end = n;
    while end > start && (s[end - 1] == 32 || s[end - 1] == 9)
        invariant
            start <= end <= n,
            n == s@.len(),
        decreases end,
    {
        end = end - 1;
    }
    let mut out: Vec<u8> = Vec::new();
    let mut i = start;
    while i < end
        invariant
            start <= i <= end,
            end <= n,
            n == s@.len(),
            out@ == s@.subrange(start as int, i as int),
        decreases end - i,
    {
        proof {
            assert(s@.subrange(start as int, i + 1) =~= s@.subrange(start as int, i as int).push(
                s@[i as int],
            ));
        }
        out.push(s[i]);
        i = i + 1;
    }
    proof {
        assert(out@ == s@.subrange(start as int, start + out@.len()));
    }
    out
}

/// An owned copy of a byte string.
pub fn copy_bytes(s: &[u8]) -> (r: Vec<u8>)
    ensures
        r@ == s@,
{
    vstd::slice::slice_to_vec(s)
}

/// Relies on String::push: appends exactly the given character.
#[verifier::external_body]
pub fn push_char(s: &mut String, c: char)
    ensures
        final(s)@ == old(s)@.push(c),
{
    s.push(c);
}

/// A string holding the given bytes, each read as one character.
pub fn ascii_string(bytes: &[u8]) -> (r: String)
    ensures
        r@.len() == bytes@.len(),
        forall|i: int| 0 <= i < bytes@.len() ==> r@[i] == bytes@[i] as char,
{
    let mut out = String::new();
    let n = bytes.len();
    for i in 0..n
        invariant
            n == bytes@.len(),
            out@.len() == i,
            forall|j: int| 0 <= j < i ==> out@[j] == bytes@[j] as char,
    {
        push_char(&mut out, bytes[i] as char);
    }
    out
}

/// `b` is a blank: a space or a tab.
pub open spec fn is_blank(b: u8) -> bool {
    b == 32 || b == 9
}

/// The maximal runs of non-blank bytes of `s`, in order.
pub open spec fn fields_of(s: Seq<u8>) -> Seq<Seq<u8>>
    decreases s.len(),
{
    if s.len() == 0 {
        Seq::empty()
    } else {
        let rest = fields_of(s.drop_last());
        if is_blank(s.last()) {
            rest
        } else if s.len() >= 2 && !is_blank(s[s.len() - 2]) {
            // The last byte extends the run it follows.
            rest.update(rest.len() - 1, rest.last().push(s.last()))
        } else {
            rest.push(seq![s.last()])
        }
    }
}

/// The fields of `s`, exactly as `fields_of` describes them: every piece
/// is nonempty and holds neither spaces nor tabs.
pub fn split_fields(s: &[u8]) -> (r: Vec<Vec<u8>>)
    ensures
        views_of(r@) == fields_of(s@),
        forall|i: int|
            0 <= i < r@.len() ==> (#[trigger] r@[i])@.len() > 0 && forall|j: int|
                0 <= j < r@[i]@.len() ==> r@[i]@[j] != 32 && r@[i]@[j] != 9,
{
    let n = s.len();
    let mut out: Vec<Vec<u8>> = Vec::new();
    let mut piece: Vec<u8> = Vec::new();
    proof {
        assert(views_of(out@) =~= fields_of(s@.take(0)));
    }
    for i in 0..n
        invariant
            n == s@.len(),
            piece@.len() > 0 <==> i > 0 && !is_blank(s@[i - 1]),
            views_of(out@) + (if piece@.len() == 0 {
                Seq::<Seq<u8>>::empty()
            } else {
                seq![piece@]
            }) == fields_of(s@.take(i as int)),
            forall|k: int|
                0 <= k < out@.len() ==> (#[trigger] out@[k])@.len() > 0 && forall|j: int|
                    0 <= j < out@[k]@.len() ==> out@[k]@[j] != 32 && out@[k]@[j] != 9,
            forall|j: int| 0 <= j < piece@.len() ==> piece@[j] != 32 && piece@[j] != 9,
    {
        let b = s[i];
        proof {
            assert(s@.take(i + 1).drop_last() =~= s@.take(i as int));
            assert(s@.take(i + 1).last() == s@[i as int]);
        }
        let ghost before = views_of(out@) + (if piece@.len() == 0 {
            Seq::<Seq<u8>>::empty()
        } else {
            seq![piece@]
        });
        if b == 32 || b == 9 {
            if piece.len() > 0 {
                out.push(piece);
                piece = Vec::new();
                proof {
                    assert(views_of(out@) =~= before);
                }
            }
        } else {
            if piece.len() > 0 {
                proof {
                    assert(s@.take(i + 1).len() >= 2 && !is_blank(
                        s@.take(i + 1)[s@.take(i + 1).len() - 2],
                    ));
                }
            }
            let ghost old_piece = piece@;
            piece.push(b);
            proof {
                if old_piece.len() > 0 {
                    assert(before.len() >= 1 && before.last() == old_piece);
                    assert(views_of(out@) + seq![piece@] =~= before.update(
                        before.len() - 1,
                        before.last().push(b),
                    ));
                } else {
                    assert(seq![b] =~= old_piece.push(b));
                    assert(views_of(out@) + seq![piece@] =~= before.push(seq![b]));
                }
            }
        }
    }
    proof {
        assert(s@.take(n as int) =~= s@);
    }
    if piece.len() > 0 {
        out.push(piece);
        proof {
            assert(views_of(out@) =~= fields_of(s@));
        }
    }
    proof {
        assert(views_of(out@) =~= fields_of(s@));
    }
    out
}

} // verus!
