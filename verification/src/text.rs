//! Verified text utilities: decimal parsing and rendering, removal of
//! `@` characters, fixed-length prefix stripping, and substring search.

use vstd::prelude::*;

verus! {

/// Relies on String::push: appends exactly the given character.
#[verifier::external_body]
fn push_char(s: &mut String, c: char)
    ensures
        final(s)@ == old(s)@.push(c),
{
    s.push(c);
}

// ---------------------------------------------------------------- digits

pub open spec fn is_digit(c: char) -> bool {
    48 <= c as int && c as int <= 57
}

pub open spec fn digit_val(c: char) -> nat {
    (c as int - 48) as nat
}

pub open spec fn all_digits(s: Seq<char>) -> bool {
    forall|i: int| 0 <= i < s.len() ==> is_digit(#[trigger] s[i])
}

/// The numeral value of a digit string, most significant digit first.
pub open spec fn dec_val(s: Seq<char>) -> nat
    decreases s.len(),
{
    if s.len() == 0 {
        0
    } else {
        dec_val(s.drop_last()) * 10 + digit_val(s.last())
    }
}

/// The digit portion of a numeral: everything after an optional leading `+`.
pub open spec fn digits_part(s: Seq<char>) -> Seq<char> {
    if s.len() > 0 && s[0] == '+' {
        s.drop_first()
    } else {
        s
    }
}

/// What parsing a vote-count display string yields: the numeral's value
/// when the string is a well-formed unsigned decimal that fits in `u64`,
/// and the default 0 otherwise.
pub open spec fn parsed_vote(s: Seq<char>) -> u64 {
    let d = digits_part(s);
    if d.len() > 0 && all_digits(d) && dec_val(d) <= u64::MAX {
        dec_val(d) as u64
    } else {
        0
    }
}

proof fn lemma_dec_val_prefix_le(s: Seq<char>, i: int)
    requires
        0 <= i <= s.len(),
    ensures
        dec_val(s.take(i)) <= dec_val(s),
    decreases s.len() - i,
{
    if i == s.len() {
        assert(s.take(i) =~= s);
    } else {
        lemma_dec_val_prefix_le(s, i + 1);
        assert(s.take(i + 1).drop_last() =~= s.take(i));
        assert(dec_val(s.take(i + 1)) == dec_val(s.take(i)) * 10 + digit_val(s[i]));
        assert(dec_val(s.take(i)) <= dec_val(s.take(i)) * 10);
    }
}

/// Parses a vote-count display string, defaulting to 0 on anything that is
/// not a plain unsigned decimal numeral that fits in `u64`.
pub fn parse_vote_count(s: &str) -> (r: u64)
    ensures
        r == parsed_vote(s@),
{
    let n = s.unicode_len();
    let start: usize = if n > 0 && s.get_char(0) == '+' {
        1
    } else {
        0
    };
    proof {
        assert(digits_part(s@) =~= s@.skip(start as int));
    }
    if start >= n {
        return 0;
    }
    let mut acc: u64 = 0;
    let mut i: usize = start;
    while i < n
        invariant
            start <= i <= n,
            n == s@.len(),
            start < n,
            digits_part(s@) =~= s@.skip(start as int),
            all_digits(s@.subrange(start as int, i as int)),
            acc == dec_val(s@.subrange(start as int, i as int)),
        decreases n - i,
    {
        let c = s.get_char(i);
        let cv: u32 = c as u32;
        if cv < 48 || cv > 57 {
            proof {
                assert(digits_part(s@)[i - start] == s@[i as int]);
                assert(!all_digits(digits_part(s@)));
            }
            return 0;
        }
        let d: u64 = (cv - 48) as u64;
        proof {
            assert(s@.subrange(start as int, i + 1).drop_last() =~= s@.subrange(
                start as int,
                i as int,
            ));
            assert(dec_val(s@.subrange(start as int, i + 1)) == acc * 10 + d);
        }
        if acc > (u64::MAX - d) / 10 {
            proof {
                assert(acc * 10 + d > u64::MAX) by (nonlinear_arith)
                    requires
                        acc > (u64::MAX - d) / 10,
                        d <= 9,
                ;
                assert(s@.subrange(start as int, i + 1) =~= digits_part(s@).take(i + 1 - start));
                lemma_dec_val_prefix_le(digits_part(s@), i + 1 - start);
                assert(dec_val(digits_part(s@)) > u64::MAX);
            }
            return 0;
        }
        acc = acc * 10 + d;
        i += 1;
    }
    proof {
        assert(s@.subrange(start as int, n as int) =~= digits_part(s@));
        assert(digits_part(s@).len() > 0);
    }
    acc
}

/// The decimal rendering of a number, most significant digit first, with
/// no sign and no leading zero.
pub open spec fn dec_str(n: nat) -> Seq<char>
    decreases n,
{
    if n < 10 {
        seq![digit_char(n)]
    } else {
        dec_str(n / 10).push(digit_char(n % 10))
    }
}

pub open spec fn digit_char(n: nat) -> char {
    ((48 + n % 10) as u8) as char
}

fn push_dec_digits(n: u64, out: &mut String)
    ensures
        final(out)@ == old(out)@ + dec_str(n as nat),
    decreases n,
{
    if n >= 10 {
        push_dec_digits(n / 10, out);
        let d: u8 = (n % 10) as u8;
        push_char(out, (48 + d) as char);
        proof {
            assert(final(out)@ =~= old(out)@ + dec_str(n as nat));
        }
    } else {
        push_char(out, (48 + n as u8) as char);
        proof {
            assert(final(out)@ =~= old(out)@ + dec_str(n as nat));
        }
    }
}

/// Renders a number as a plain decimal numeral.
pub fn u64_to_dec(n: u64) -> (r: String)
    ensures
        r@ == dec_str(n as nat),
{
    let mut out = String::new();
    push_dec_digits(n, &mut out);
    proof {
        assert(out@ =~= dec_str(n as nat));
    }
    out
}

// ------------------------------------------------------------- filtering

/// The sequence with every `@` character removed and all else kept in order.
pub open spec fn without_at(s: Seq<char>) -> Seq<char>
    decreases s.len(),
{
    if s.len() == 0 {
        Seq::empty()
    } else if s[0] == '@' {
        without_at(s.drop_first())
    } else {
        seq![s[0]] + without_at(s.drop_first())
    }
}

proof fn lemma_without_at_push(s: Seq<char>, c: char)
    ensures
        without_at(s.push(c)) == without_at(s) + (if c == '@' {
            Seq::<char>::empty()
        } else {
            seq![c]
        }),
    decreases s.len(),
{
    let tail = if c == '@' {
        Seq::<char>::empty()
    } else {
        seq![c]
    };
    if s.len() == 0 {
        assert(s.push(c).drop_first() =~= Seq::<char>::empty());
        assert(s.push(c)[0] == c);
        assert(without_at(s.push(c).drop_first()) =~= Seq::<char>::empty());
        assert(without_at(s) =~= Seq::<char>::empty());
        assert(without_at(s.push(c)) =~= without_at(s) + tail);
    } else {
        lemma_without_at_push(s.drop_first(), c);
        assert(s.push(c).drop_first() =~= s.drop_first().push(c));
        assert(s.push(c)[0] == s[0]);
        assert(seq![s[0]] + (without_at(s.drop_first()) + tail) =~= (seq![s[0]] + without_at(
            s.drop_first(),
        )) + tail);
        assert(without_at(s.push(c)) =~= without_at(s) + tail);
    }
}

/// Removes every `@` character from a string.
pub fn remove_at_signs(s: &str) -> (r: String)
    ensures
        r@ == without_at(s@),
{
    let n = s.unicode_len();
    let mut out = String::new();
    let mut i: usize = 0;
    while i < n
        invariant
            i <= n,
            n == s@.len(),
            out@ == without_at(s@.take(i as int)),
        decreases n - i,
    {
        let c = s.get_char(i);
        if c != '@' {
            push_char(&mut out, c);
        }
        proof {
            lemma_without_at_push(s@.take(i as int), c);
            assert(s@.take(i as int).push(c) =~= s@.take(i + 1));
            if c != '@' {
                assert(out@ =~= without_at(s@.take(i as int)) + seq![c]);
            } else {
                assert(out@ =~= without_at(s@.take(i as int)));
            }
        }
        i += 1;
    }
    proof {
        assert(s@.take(n as int) =~= s@);
    }
    out
}

// ------------------------------------------------------------- prefixes

/// Everything after the first `n` characters, or nothing when the string
/// is shorter than that.
pub open spec fn tail_from(s: Seq<char>, n: int) -> Seq<char> {
    if 0 <= n <= s.len() {
        s.skip(n)
    } else {
        Seq::empty()
    }
}

/// Drops the first `n` characters of a string, yielding the empty string
/// when it is shorter than that.
pub fn chars_from(s: &str, n: usize) -> (r: String)
    ensures
        r@ == tail_from(s@, n as int),
{
    let len = s.unicode_len();
    if n <= len {
        let t = s.substring_char(n, len);
        proof {
            assert(t@ =~= s@.skip(n as int));
        }
        t.to_owned()
    } else {
        String::new()
    }
}

// ------------------------------------------------------ substring search

/// The pattern `m` occurs in `s` starting at character position `i`.
pub open spec fn has_sub_at(s: Seq<char>, m: Seq<char>, i: int) -> bool {
    0 <= i && i + m.len() <= s.len() && s.subrange(i, i + m.len()) == m
}

/// The pattern `m` occurs somewhere in `s`.
pub open spec fn has_sub(s: Seq<char>, m: Seq<char>) -> bool {
    exists|i: int| has_sub_at(s, m, i)
}

fn match_at(s: &str, m: &str, i: usize) -> (r: bool)
    requires
        i + m@.len() <= s@.len(),
        s@.len() <= usize::MAX,
    ensures
        r == has_sub_at(s@, m@, i as int),
{
    let mn = m.unicode_len();
    let mut j: usize = 0;
    while j < mn
        invariant
            j <= mn,
            mn == m@.len(),
            i + mn <= s@.len(),
            s@.len() <= usize::MAX,
            forall|q: int| 0 <= q < j ==> s@[i + q] == m@[q],
        decreases mn - j,
    {
        if s.get_char(i + j) != m.get_char(j) {
            proof {
                assert(s@.subrange(i as int, i + mn) != m@) by {
                    assert(s@.subrange(i as int, i + mn)[j as int] == s@[i + j]);
                }
            }
            return false;
        }
        j += 1;
    }
    proof {
        assert(s@.subrange(i as int, i + mn) =~= m@);
    }
    true
}

/// Decides whether `m` occurs as a contiguous substring of `s`.
pub fn contains_sub(s: &str, m: &str) -> (r: bool)
    ensures
        r == has_sub(s@, m@),
{
    let sn = s.unicode_len();
    let mn = m.unicode_len();
    if mn > sn {
        proof {
            assert(forall|i: int| !has_sub_at(s@, m@, i));
        }
        return false;
    }
    if mn == 0 {
        proof {
            assert(s@.subrange(0, 0) =~= m@);
            assert(has_sub_at(s@, m@, 0));
        }
        return true;
    }
    let mut i: usize = 0;
    while i <= sn - mn
        invariant
            1 <= mn <= sn,
            sn == s@.len(),
            mn == m@.len(),
            i <= sn - mn + 1,
            forall|p: int| 0 <= p < i ==> !has_sub_at(s@, m@, p),
        decreases sn - mn + 1 - i,
    {
        if match_at(s, m, i) {
            return true;
        }
        i += 1;
    }
    proof {
        assert(forall|p: int| p > sn - mn ==> !has_sub_at(s@, m@, p));
    }
    false
}

} // verus!
