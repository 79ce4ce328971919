//! Character-level text utilities: whitespace trimming and suffix tests,
//! with exact sequence-level specifications.

use vstd::prelude::*;

verus! {

/// ASCII whitespace, the characters trimmed from text edges.
pub open spec fn is_space(c: char) -> bool {
    c == ' ' || c == '\t' || c == '\n' || c == '\r'
}

pub fn char_is_space(c: char) -> (r: bool)
    ensures
        r == is_space(c),
{
    c == ' ' || c == '\t' || c == '\n' || c == '\r'
}

/// `s` without its trailing whitespace.
pub open spec fn trim_end_spec(s: Seq<char>) -> Seq<char>
    decreases s.len(),
{
    if s.len() > 0 && is_space(s.last()) {
        trim_end_spec(s.drop_last())
    } else {
        s
    }
}

/// `s` without its leading whitespace.
pub open spec fn trim_start_spec(s: Seq<char>) -> Seq<char>
    decreases s.len(),
{
    if s.len() > 0 && is_space(s.first()) {
        trim_start_spec(s.drop_first())
    } else {
        s
    }
}

/// `s` without leading and trailing whitespace.
pub open spec fn trim_spec(s: Seq<char>) -> Seq<char> {
    trim_start_spec(trim_end_spec(s))
}

/// `suffix` is the tail of `s`.
pub open spec fn ends_with(s: Seq<char>, suffix: Seq<char>) -> bool {
    suffix.len() <= s.len() && s.subrange(s.len() - suffix.len(), s.len() as int) == suffix
}

/// Index just past the last non-whitespace character of `s`.
fn trimmed_end(s: &str) -> (end: usize)
    ensures
        end <= s@.len(),
        trim_end_spec(s@) == s@.subrange(0, end as int),
{
    let len = s.unicode_len();
    let mut end = len;
    assert(s@.take(len as int) =~= s@);
    while end > 0 && char_is_space(s.get_char(end - 1))
        invariant
            end <= len,
            len == s@.len(),
            trim_end_spec(s@) == trim_end_spec(s@.take(end as int)),
        decreases end,
    {
        proof {
            assert(s@.take(end as int).last() == s@[end - 1]);
            assert(s@.take(end as int).drop_last() =~= s@.take(end - 1));
        }
        end = end - 1;
    }
    proof {
        if end > 0 {
            assert(!is_space(s@.take(end as int).last()));
        }
        assert(trim_end_spec(s@.take(end as int)) == s@.take(end as int));
        assert(s@.take(end as int) =~= s@.subrange(0, end as int));
    }
    end
}

/// First index of a non-whitespace character of `s` at or before `end`.
fn trimmed_start(s: &str, end: usize) -> (start: usize)
    requires
        end <= s@.len(),
    ensures
        start <= end,
        trim_start_spec(s@.subrange(0, end as int)) == s@.subrange(start as int, end as int),
{
    let mut start: usize = 0;
    while start < end && char_is_space(s.get_char(start))
        invariant
            start <= end,
            end <= s@.len(),
            trim_start_spec(s@.subrange(0, end as int)) == trim_start_spec(
                s@.subrange(start as int, end as int),
            ),
        decreases end - start,
    {
        proof {
            assert(s@.subrange(start as int, end as int).first() == s@[start as int]);
            assert(s@.subrange(start as int, end as int).drop_first() =~= s@.subrange(
                start + 1,
                end as int,
            ));
        }
        start = start + 1;
    }
    proof {
        if start < end {
            assert(!is_space(s@.subrange(start as int, end as int).first()));
        }
    }
    start
}

/// `s` with leading and trailing ASCII whitespace removed.
pub fn trim_str(s: &str) -> (r: String)
    ensures
        r@ == trim_spec(s@),
{
    let end = trimmed_end(s);
    let start = trimmed_start(s, end);
    let sub = s.substring_char(start, end);
    String::from_str(sub)
}

/// `s` with trailing ASCII whitespace removed.
pub fn trim_end_str(s: &str) -> (r: String)
    ensures
        r@ == trim_end_spec(s@),
{
    let end = trimmed_end(s);
    let sub = s.substring_char(0, end);
    String::from_str(sub)
}

/// The character for the decimal digit `d`.
pub open spec fn digit_char(d: int) -> char {
    if d == 0 {
        '0'
    } else if d == 1 {
        '1'
    } else if d == 2 {
        '2'
    } else if d == 3 {
        '3'
    } else if d == 4 {
        '4'
    } else if d == 5 {
        '5'
    } else if d == 6 {
        '6'
    } else if d == 7 {
        '7'
    } else if d == 8 {
        '8'
    } else {
        '9'
    }
}

/// The decimal rendering of `n`, most significant digit first, no sign and
/// no leading zeros (a single `0` for zero).
pub open spec fn dec_of(n: nat) -> Seq<char>
    decreases n,
{
    if n < 10 {
        seq![digit_char(n as int)]
    } else {
        dec_of(n / 10) + seq![digit_char((n % 10) as int)]
    }
}

/// Append the character of the decimal digit `d` to `s`.
fn push_digit(s: &mut String, d: u8)
    requires
        d < 10,
    ensures
        final(s)@ == old(s)@ + seq![digit_char(d as int)],
{
    if d == 0 {
        proof {
            reveal_strlit("0");
        }
        s.append("0");
    } else if d == 1 {
        proof {
            reveal_strlit("1");
        }
        s.append("1");
    } else if d == 2 {
        proof {
            reveal_strlit("2");
        }
        s.append("2");
    } else if d == 3 {
        proof {
            reveal_strlit("3");
        }
        s.append("3");
    } else if d == 4 {
        proof {
            reveal_strlit("4");
        }
        s.append("4");
    } else if d == 5 {
        proof {
            reveal_strlit("5");
        }
        s.append("5");
    } else if d == 6 {
        proof {
            reveal_strlit("6");
        }
        s.append("6");
    } else if d == 7 {
        proof {
            reveal_strlit("7");
        }
        s.append("7");
    } else if d == 8 {
        proof {
            reveal_strlit("8");
        }
        s.append("8");
    } else {
        proof {
            reveal_strlit("9");
        }
        s.append("9");
    }
    proof {
        assert(final(s)@ =~= old(s)@ + seq![digit_char(d as int)]);
    }
}

/// The characters of the collected digits `ds` (least significant first),
/// read back most significant first.
spec fn digits_to_seq(ds: Seq<u8>) -> Seq<char> {
    Seq::new(ds.len(), |i: int| digit_char(ds[ds.len() - 1 - i] as int))
}

/// Render `n` in decimal.
pub fn u64_to_dec(n: u64) -> (r: String)
    ensures
        r@ == dec_of(n as nat),
{
    let mut digits: Vec<u8> = Vec::new();
    let mut m: u64 = n;
    while m >= 10
        invariant
            dec_of(n as nat) == dec_of(m as nat) + digits_to_seq(digits@),
            forall|k: int| 0 <= k < digits@.len() ==> digits@[k] < 10,
        decreases m,
    {
        let d: u8 = (m % 10) as u8;
        let ghost ds0 = digits@;
        digits.push(d);
        m = m / 10;
        proof {
            assert(digits_to_seq(ds0.push(d)) =~= seq![digit_char(d as int)] + digits_to_seq(
                ds0,
            ));
            assert(dec_of(n as nat) =~= dec_of(m as nat) + digits_to_seq(digits@));
        }
    }
    let d: u8 = m as u8;
    let ghost ds0 = digits@;
    digits.push(d);
    proof {
        assert(digits_to_seq(ds0.push(d)) =~= seq![digit_char(d as int)] + digits_to_seq(ds0));
        assert(dec_of(n as nat) =~= digits_to_seq(digits@));
    }
    let mut r = String::new();
    let len = digits.len();
    let mut i: usize = 0;
    while i < len
        invariant
            i <= len,
            len == digits@.len(),
            dec_of(n as nat) == digits_to_seq(digits@),
            forall|k: int| 0 <= k < len ==> digits@[k] < 10,
            r@ == digits_to_seq(digits@).take(i as int),
        decreases len - i,
    {
        push_digit(&mut r, digits[len - 1 - i]);
        proof {
            assert(r@ =~= digits_to_seq(digits@).take(i + 1));
        }
        i = i + 1;
    }
    proof {
        assert(digits_to_seq(digits@).take(len as int) =~= digits_to_seq(digits@));
    }
    r
}

/// A decimal digit character.
pub open spec fn is_digit(c: char) -> bool {
    48 <= c as u32 <= 57
}

/// The value of a digit character, zero for any other character.
pub open spec fn digit_val(c: char) -> nat {
    if is_digit(c) {
        (c as u32 - 48) as nat
    } else {
        0
    }
}

/// Every character of `s` is a decimal digit.
pub open spec fn all_digits(s: Seq<char>) -> bool {
    forall|i: int| 0 <= i < s.len() ==> is_digit(#[trigger] s[i])
}

/// The number the digit characters of `s` denote.
pub open spec fn dec_val(s: Seq<char>) -> nat
    decreases s.len(),
{
    if s.len() == 0 {
        0
    } else {
        dec_val(s.drop_last()) * 10 + digit_val(s.last())
    }
}

/// The number denoted never shrinks as digits are appended.
proof fn lemma_dec_val_prefix(s: Seq<char>, k: int)
    requires
        0 <= k <= s.len(),
    ensures
        dec_val(s.take(k)) <= dec_val(s),
    decreases s.len(),
{
    if k < s.len() {
        assert(s.drop_last().take(k) =~= s.take(k));
        lemma_dec_val_prefix(s.drop_last(), k);
        assert(dec_val(s) == dec_val(s.drop_last()) * 10 + digit_val(s.last()));
        assert(dec_val(s.drop_last()) * 10 >= dec_val(s.drop_last())) by (nonlinear_arith);
    } else {
        assert(s.take(k) =~= s);
    }
}

/// How `u64` text parses: an optional leading `+`, then one or more decimal
/// digits whose value fits; anything else is rejected.
pub open spec fn parse_u64_spec(s: Seq<char>) -> Option<u64> {
    let body = if s.len() > 0 && s[0] == '+' {
        s.drop_first()
    } else {
        s
    };
    if body.len() > 0 && all_digits(body) && dec_val(body) <= u64::MAX {
        Some(dec_val(body) as u64)
    } else {
        None
    }
}

/// Parse `s` as a `u64`.
pub fn parse_u64(s: &str) -> (r: Option<u64>)
    ensures
        r == parse_u64_spec(s@),
{
    let len = s.unicode_len();
    let mut start: usize = 0;
    if len > 0 && s.get_char(0) == '+' {
        start = 1;
    }
    let ghost body = if s@.len() > 0 && s@[0] == '+' {
        s@.drop_first()
    } else {
        s@
    };
    proof {
        assert(body =~= s@.subrange(start as int, len as int));
    }
    if start == len {
        return None;
    }
    let mut acc: u64 = 0;
    let mut i: usize = start;
    assert(body.take(0) =~= Seq::<char>::empty());
    while i < len
        invariant
            start <= i <= len,
            len == s@.len(),
            body == (if s@.len() > 0 && s@[0] == '+' {
                s@.drop_first()
            } else {
                s@
            }),
            body == s@.subrange(start as int, len as int),
            all_digits(body.take(i - start)),
            acc == dec_val(body.take(i - start)),
        decreases len - i,
    {
        let c = s.get_char(i);
        proof {
            assert(body.take(i - start + 1).drop_last() =~= body.take(i - start));
            assert(body.take(i - start + 1).last() == s@[i as int]);
        }
        let cv = c as u32;
        if cv < 48 || cv > 57 {
            proof {
                assert(body[i - start] == s@[i as int]);
                assert(!is_digit(body[i - start]));
            }
            return None;
        }
        let d: u64 = (cv - 48) as u64;
        if acc > (u64::MAX - d) / 10 {
            proof {
                assert(dec_val(body.take(i - start + 1)) == acc * 10 + d);
                assert(acc * 10 + d > u64::MAX) by (nonlinear_arith)
                    requires
                        acc > (u64::MAX - d) / 10,
                        d < 10,
                ;
                lemma_dec_val_prefix(body, i - start + 1);
            }
            return None;
        }
        acc = acc * 10 + d;
        i = i + 1;
    }
    proof {
        assert(body.take(len - start) =~= body);
    }
    Some(acc)
}

/// Whether `s` ends with `suffix`, compared character by character.
pub fn str_ends_with(s: &str, suffix: &str) -> (r: bool)
    ensures
        r == ends_with(s@, suffix@),
{
    let slen = s.unicode_len();
    let plen = suffix.unicode_len();
    if plen > slen {
        return false;
    }
    let base = slen - plen;
    let mut i: usize = 0;
    while i < plen
        invariant
            i <= plen,
            plen <= slen,
            base == slen - plen,
            slen == s@.len(),
            plen == suffix@.len(),
            forall|j: int| 0 <= j < i ==> s@[base + j] == suffix@[j],
        decreases plen - i,
    {
        if s.get_char(base + i) != suffix.get_char(i) {
            proof {
                assert(s@.subrange(base as int, slen as int)[i as int] != suffix@[i as int]);
            }
            return false;
        }
        i = i + 1;
    }
    proof {
        assert(s@.subrange(base as int, slen as int) =~= suffix@);
    }
    true
}

/// `parts` with `prefix` prepended to its first part.
pub open spec fn join_front(prefix: Seq<char>, parts: Seq<Seq<char>>) -> Seq<Seq<char>>
    recommends
        parts.len() > 0,
{
    seq![prefix + parts.first()] + parts.drop_first()
}

/// The parts of `s` between occurrences of `sep`: one part more than there
/// are separators, parts may be empty.
pub open spec fn split_spec(s: Seq<char>, sep: char) -> Seq<Seq<char>>
    decreases s.len(),
{
    if s.len() == 0 {
        seq![Seq::<char>::empty()]
    } else if s.first() == sep {
        seq![Seq::<char>::empty()] + split_spec(s.drop_first(), sep)
    } else {
        join_front(seq![s.first()], split_spec(s.drop_first(), sep))
    }
}

pub proof fn lemma_split_len(s: Seq<char>, sep: char)
    ensures
        split_spec(s, sep).len() >= 1,
    decreases s.len(),
{
    if s.len() > 0 {
        lemma_split_len(s.drop_first(), sep);
    }
}

/// Like `split_spec`, but at most `n` parts: the last part swallows any
/// further separators.
pub open spec fn splitn_spec(s: Seq<char>, sep: char, n: nat) -> Seq<Seq<char>>
    decreases s.len(),
{
    if n <= 1 || s.len() == 0 {
        seq![s]
    } else if s.first() == sep {
        seq![Seq::<char>::empty()] + splitn_spec(s.drop_first(), sep, (n - 1) as nat)
    } else {
        join_front(seq![s.first()], splitn_spec(s.drop_first(), sep, n))
    }
}

pub proof fn lemma_splitn_len(s: Seq<char>, sep: char, n: nat)
    requires
        n >= 1,
    ensures
        1 <= splitn_spec(s, sep, n).len() <= n,
    decreases s.len(),
{
    if !(n <= 1 || s.len() == 0) {
        if s.first() == sep {
            lemma_splitn_len(s.drop_first(), sep, (n - 1) as nat);
        } else {
            lemma_splitn_len(s.drop_first(), sep, n);
        }
    }
}

/// Split `s` at every occurrence of `sep`.
pub fn split_all(s: &str, sep: char) -> (r: Vec<String>)
    ensures
        r@.map_values(|t: String| t@) == split_spec(s@, sep),
{
    let len = s.unicode_len();
    let mut out: Vec<String> = Vec::new();
    let mut start: usize = 0;
    let mut i: usize = 0;
    proof {
        lemma_split_len(s@, sep);
        assert(s@.skip(0) =~= s@);
        assert(s@.subrange(0, 0) =~= Seq::<char>::empty());
        assert(Seq::<char>::empty() + split_spec(s@, sep).first() =~= split_spec(s@, sep).first());
        assert(join_front(Seq::<char>::empty(), split_spec(s@, sep)) =~= split_spec(s@, sep));
        assert(out@.map_values(|t: String| t@) =~= Seq::<Seq<char>>::empty());
        assert(Seq::<Seq<char>>::empty() + split_spec(s@, sep) =~= split_spec(s@, sep));
    }
    while i < len
        invariant
            start <= i <= len,
            len == s@.len(),
            split_spec(s@, sep) == out@.map_values(|t: String| t@) + join_front(
                s@.subrange(start as int, i as int),
                split_spec(s@.skip(i as int), sep),
            ),
        decreases len - i,
    {
        let ghost tail = s@.skip(i as int);
        let ghost cur = s@.subrange(start as int, i as int);
        let ghost rest = split_spec(s@.skip(i + 1), sep);
        proof {
            assert(tail.len() > 0);
            assert(tail.first() == s@[i as int]);
            assert(tail.drop_first() =~= s@.skip(i + 1));
            lemma_split_len(s@.skip(i + 1), sep);
        }
        let c = s.get_char(i);
        if c == sep {
            let piece = s.substring_char(start, i);
            let ghost out0 = out@;
            out.push(String::from_str(piece));
            proof {
                // the tail splits into an empty head part and the rest
                assert(split_spec(tail, sep) == seq![Seq::<char>::empty()] + rest);
                assert((seq![Seq::<char>::empty()] + rest).first() =~= Seq::<char>::empty());
                assert((seq![Seq::<char>::empty()] + rest).drop_first() =~= rest);
                assert(join_front(cur, split_spec(tail, sep)) =~= seq![cur] + rest);
                assert(join_front(Seq::<char>::empty(), rest) =~= rest);
                assert(out@.map_values(|t: String| t@) =~= out0.map_values(|t: String| t@)
                    + seq![cur]);
                assert(out0.map_values(|t: String| t@) + (seq![cur] + rest) =~= (out0.map_values(
                    |t: String| t@,
                ) + seq![cur]) + rest);
                assert(s@.subrange(i + 1, i + 1) =~= Seq::<char>::empty());
                assert(split_spec(s@, sep) == out@.map_values(|t: String| t@) + join_front(
                    s@.subrange(i + 1, i + 1),
                    split_spec(s@.skip(i + 1), sep),
                ));
            }
            start = i + 1;
        } else {
            proof {
                assert(split_spec(tail, sep) == join_front(seq![tail.first()], rest));
                assert(rest.len() > 0);
                assert(join_front(seq![tail.first()], rest).first() == seq![tail.first()]
                    + rest.first());
                assert(join_front(seq![tail.first()], rest).drop_first() =~= rest.drop_first());
                assert(cur + (seq![tail.first()] + rest.first()) =~= s@.subrange(
                    start as int,
                    i + 1,
                ) + rest.first());
                assert(join_front(cur, split_spec(tail, sep)) =~= join_front(
                    s@.subrange(start as int, i + 1),
                    rest,
                ));
            }
        }
        i = i + 1;
    }
    let piece = s.substring_char(start, len);
    let ghost out0 = out@;
    out.push(String::from_str(piece));
    proof {
        assert(s@.skip(len as int) =~= Seq::<char>::empty());
        assert(split_spec(s@.skip(len as int), sep) == seq![Seq::<char>::empty()]);
        assert(join_front(s@.subrange(start as int, len as int), seq![Seq::<char>::empty()])
            =~= seq![s@.subrange(start as int, len as int)]);
        assert(out@.map_values(|t: String| t@) =~= out0.map_values(|t: String| t@) + seq![
            s@.subrange(start as int, len as int),
        ]);
        assert(out@.map_values(|t: String| t@) =~= split_spec(s@, sep));
    }
    out
}

/// Split `s` at `sep` into at most `n` parts.
pub fn splitn(s: &str, sep: char, n: usize) -> (r: Vec<String>)
    requires
        n >= 1,
    ensures
        r@.map_values(|t: String| t@) == splitn_spec(s@, sep, n as nat),
{
    let len = s.unicode_len();
    let mut out: Vec<String> = Vec::new();
    let mut start: usize = 0;
    let mut i: usize = 0;
    proof {
        lemma_splitn_len(s@, sep, n as nat);
        assert(s@.skip(0) =~= s@);
        assert(s@.subrange(0, 0) =~= Seq::<char>::empty());
        assert(Seq::<char>::empty() + splitn_spec(s@, sep, n as nat).first() =~= splitn_spec(
            s@,
            sep,
            n as nat,
        ).first());
        assert(join_front(Seq::<char>::empty(), splitn_spec(s@, sep, n as nat)) =~= splitn_spec(
            s@,
            sep,
            n as nat,
        ));
        assert(out@.map_values(|t: String| t@) =~= Seq::<Seq<char>>::empty());
        assert(Seq::<Seq<char>>::empty() + splitn_spec(s@, sep, n as nat) =~= splitn_spec(
            s@,
            sep,
            n as nat,
        ));
    }
    while i < len && out.len() < n - 1
        invariant
            start <= i <= len,
            len == s@.len(),
            out@.len() < n,
            splitn_spec(s@, sep, n as nat) == out@.map_values(|t: String| t@) + join_front(
                s@.subrange(start as int, i as int),
                splitn_spec(s@.skip(i as int), sep, (n - out@.len()) as nat),
            ),
        decreases len - i,
    {
        let ghost m = (n - out@.len()) as nat;
        let ghost tail = s@.skip(i as int);
        let ghost cur = s@.subrange(start as int, i as int);
        proof {
            assert(m >= 2);
            assert(tail.len() > 0);
            assert(tail.first() == s@[i as int]);
            assert(tail.drop_first() =~= s@.skip(i + 1));
        }
        let c = s.get_char(i);
        if c == sep {
            let ghost rest = splitn_spec(s@.skip(i + 1), sep, (m - 1) as nat);
            proof {
                lemma_splitn_len(s@.skip(i + 1), sep, (m - 1) as nat);
            }
            let piece = s.substring_char(start, i);
            let ghost out0 = out@;
            out.push(String::from_str(piece));
            proof {
                assert(splitn_spec(tail, sep, m) == seq![Seq::<char>::empty()] + rest);
                assert((seq![Seq::<char>::empty()] + rest).first() =~= Seq::<char>::empty());
                assert((seq![Seq::<char>::empty()] + rest).drop_first() =~= rest);
                assert(join_front(cur, splitn_spec(tail, sep, m)) =~= seq![cur] + rest);
                assert(join_front(Seq::<char>::empty(), rest) =~= rest);
                assert(out@.map_values(|t: String| t@) =~= out0.map_values(|t: String| t@)
                    + seq![cur]);
                assert(out0.map_values(|t: String| t@) + (seq![cur] + rest) =~= (out0.map_values(
                    |t: String| t@,
                ) + seq![cur]) + rest);
                assert(s@.subrange(i + 1, i + 1) =~= Seq::<char>::empty());
            }
            start = i + 1;
        } else {
            let ghost rest = splitn_spec(s@.skip(i + 1), sep, m);
            proof {
                lemma_splitn_len(s@.skip(i + 1), sep, m);
                assert(splitn_spec(tail, sep, m) == join_front(seq![tail.first()], rest));
                assert(join_front(seq![tail.first()], rest).first() == seq![tail.first()]
                    + rest.first());
                assert(join_front(seq![tail.first()], rest).drop_first() =~= rest.drop_first());
                assert(cur + (seq![tail.first()] + rest.first()) =~= s@.subrange(
                    start as int,
                    i + 1,
                ) + rest.first());
                assert(join_front(cur, splitn_spec(tail, sep, m)) =~= join_front(
                    s@.subrange(start as int, i + 1),
                    rest,
                ));
            }
        }
        i = i + 1;
    }
    let piece = s.substring_char(start, len);
    let ghost out0 = out@;
    out.push(String::from_str(piece));
    proof {
        let m = (n - out0.len()) as nat;
        let tail = s@.skip(i as int);
        if i == len {
            assert(tail =~= Seq::<char>::empty());
            assert(splitn_spec(tail, sep, m) == seq![tail]);
            assert(s@.subrange(start as int, i as int) + tail =~= s@.subrange(
                start as int,
                len as int,
            ));
        } else {
            assert(m == 1);
            assert(splitn_spec(tail, sep, m) == seq![tail]);
            assert(s@.subrange(start as int, i as int) + tail =~= s@.subrange(
                start as int,
                len as int,
            ));
        }
        assert(join_front(s@.subrange(start as int, i as int), seq![tail]) =~= seq![
            s@.subrange(start as int, len as int),
        ]);
        assert(out@.map_values(|t: String| t@) =~= out0.map_values(|t: String| t@) + seq![
            s@.subrange(start as int, len as int),
        ]);
        assert(out@.map_values(|t: String| t@) =~= splitn_spec(s@, sep, n as nat));
    }
    out
}

/// A line that holds any non-whitespace character.
pub open spec fn is_nonblank() -> spec_fn(Seq<char>) -> bool {
    |l: Seq<char>| trim_spec(l).len() > 0
}

/// How many lines of `s` hold any non-whitespace character.
pub fn count_nonblank_lines(s: &str) -> (r: usize)
    ensures
        r == split_spec(s@, '\n').filter(is_nonblank()).len(),
{
    let parts = split_all(s, '\n');
    let ghost views = parts@.map_values(|t: String| t@);
    let mut count: usize = 0;
    let n = parts.len();
    let mut j: usize = 0;
    proof {
        assert(views.take(0) =~= Seq::<Seq<char>>::empty());
        assert(Seq::<Seq<char>>::empty().filter(is_nonblank()).len() == 0) by {
            reveal(Seq::filter);
        }
    }
    while j < n
        invariant
            j <= n,
            n == parts@.len(),
            views == parts@.map_values(|t: String| t@),
            count == views.take(j as int).filter(is_nonblank()).len(),
            count <= j,
        decreases n - j,
    {
        let trimmed = trim_str(parts[j].as_str());
        proof {
            views.take(j as int).lemma_filter_push(views[j as int], is_nonblank());
            views.take(j as int).lemma_filter_len(is_nonblank());
            assert(views.take(j as int).push(views[j as int]) =~= views.take(j + 1));
        }
        if !trimmed.as_str().is_empty() {
            count = count + 1;
        }
        j = j + 1;
    }
    proof {
        assert(views.take(n as int) =~= views);
    }
    count
}

/// The lowercase form of `s` as Rust's Unicode lowercasing produces it;
/// a function of the characters alone.
pub uninterp spec fn lower_of(s: Seq<char>) -> Seq<char>;

/// Relies on str::to_lowercase: the result depends on the characters alone,
/// and an empty string stays empty.
#[verifier::external_body]
pub(crate) fn lowercase(s: &str) -> (r: String)
    ensures
        r@ == lower_of(s@),
        s@.len() == 0 ==> r@.len() == 0,
{
    s.to_lowercase()
}

} // verus!
