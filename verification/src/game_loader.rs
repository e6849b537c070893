//! Layout of a recorded play instance. The gameplay file holds, one after the other, the
//! serialized entity-component store, the serialized bounding box tree and the serialized
//! frame changes; a lookup text holds the length in bytes of each part, one per line, and
//! ends with a line that is not read.

use vstd::prelude::*;

verus! {

/// The lines of `b`, split at each newline byte; text without a newline is one line.
pub open spec fn split_lines(b: Seq<u8>) -> Seq<Seq<u8>>
    decreases b.len(),
{
    if b.len() == 0 {
        seq![Seq::<u8>::empty()]
    } else {
        let prev = split_lines(b.drop_last());
        if b.last() == 10 {
            prev.push(Seq::<u8>::empty())
        } else {
            prev.update(prev.len() - 1, prev.last().push(b.last()))
        }
    }
}

/// Every byte of `s` is an ASCII decimal digit.
pub open spec fn all_digits(s: Seq<u8>) -> bool {
    forall|i: int| 0 <= i < s.len() ==> 48 <= #[trigger] s[i] <= 57
}

/// The number written by the decimal digits `s`.
pub open spec fn digits_value(s: Seq<u8>) -> nat
    decreases s.len(),
{
    if s.len() == 0 {
        0
    } else {
        digits_value(s.drop_last()) * 10 + (s.last() - 48) as nat
    }
}

/// The unsigned number a line of text holds: an optional `+` then at least one decimal digit,
/// with a value that fits in `usize`.
pub open spec fn parsed_size(s: Seq<u8>) -> Option<usize> {
    let d = if s.len() > 0 && s[0] == 43 {
        s.drop_first()
    } else {
        s
    };
    if d.len() > 0 && all_digits(d) && digits_value(d) <= usize::MAX {
        Some(digits_value(d) as usize)
    } else {
        None
    }
}

/// The decimal text of `n`, as ASCII bytes, without leading zeros.
pub open spec fn decimal_bytes(n: nat) -> Seq<u8>
    decreases n,
{
    if n < 10 {
        seq![(48 + n) as u8]
    } else {
        decimal_bytes(n / 10).push((48 + n % 10) as u8)
    }
}

/// `k` ASCII zeros.
pub open spec fn zero_bytes(k: nat) -> Seq<u8> {
    Seq::new(k, |_i: int| 48u8)
}

proof fn lemma_decimal_bytes(n: nat)
    ensures
        decimal_bytes(n).len() > 0,
        all_digits(decimal_bytes(n)),
        digits_value(decimal_bytes(n)) == n,
        decimal_bytes(n)[0] != 43,
    decreases n,
{
    if n >= 10 {
        lemma_decimal_bytes(n / 10);
        let d = decimal_bytes(n);
        assert(d.drop_last() =~= decimal_bytes(n / 10));
        assert(d[0] == decimal_bytes(n / 10)[0]);
        assert(n % 10 < 10);
        assert(d.last() == (48 + n % 10) as u8);
        assert((d.last() - 48) as nat == n % 10);
        assert(n == (n / 10) * 10 + n % 10) by (nonlinear_arith);
        assert(digits_value(d) == digits_value(d.drop_last()) * 10 + (d.last() - 48) as nat);
        assert(digits_value(d.drop_last()) == n / 10);
    } else {
        assert(seq![(48 + n) as u8].drop_last() =~= Seq::<u8>::empty());
        assert(decimal_bytes(n).last() == (48 + n) as u8);
        assert(digits_value(decimal_bytes(n).drop_last()) == 0);
        assert(digits_value(decimal_bytes(n)) == digits_value(decimal_bytes(n).drop_last()) * 10 + (decimal_bytes(n).last() - 48) as nat);
    }
}

proof fn lemma_leading_zeros(k: nat, b: Seq<u8>)
    ensures
        digits_value(zero_bytes(k) + b) == digits_value(b),
        all_digits(zero_bytes(k)),
    decreases b.len(),
{
    if b.len() == 0 {
        assert(zero_bytes(k) + b =~= zero_bytes(k));
        lemma_zeros_value(k);
    } else {
        lemma_leading_zeros(k, b.drop_last());
        assert((zero_bytes(k) + b).drop_last() =~= zero_bytes(k) + b.drop_last());
    }
}

proof fn lemma_zeros_value(k: nat)
    ensures
        digits_value(zero_bytes(k)) == 0,
    decreases k,
{
    if k > 0 {
        lemma_zeros_value((k - 1) as nat);
        assert(zero_bytes(k).drop_last() =~= zero_bytes((k - 1) as nat));
    }
}

/// A size line is read as `usize`'s parser reads text: the decimal digits of any `usize`,
/// after any number of leading zeros and an optional `+`, give that number back; a line
/// with a byte other than a digit (or a leading `+`), an empty line, and a number beyond
/// `usize::MAX` give none.
pub proof fn lemma_size_lines_parse(n: usize, k: nat, s: Seq<u8>, i: int)
    ensures
        parsed_size(zero_bytes(k) + decimal_bytes(n as nat)) == Some(n),
        parsed_size(seq![43u8] + zero_bytes(k) + decimal_bytes(n as nat)) == Some(n),
        parsed_size(Seq::<u8>::empty()) is None,
        parsed_size(seq![43u8]) is None,
        0 <= i < s.len() && !(48 <= s[i] <= 57) && !(i == 0 && s[i] == 43) ==> parsed_size(s) is None,
        parsed_size(decimal_bytes(usize::MAX as nat + 1)) is None,
{
    lemma_decimal_bytes(n as nat);
    lemma_leading_zeros(k, decimal_bytes(n as nat));
    let t = zero_bytes(k) + decimal_bytes(n as nat);
    assert forall|j: int| 0 <= j < t.len() implies 48 <= #[trigger] t[j] <= 57 by {
        if j < k {
            assert(t[j] == zero_bytes(k)[j]);
        } else {
            assert(t[j] == decimal_bytes(n as nat)[j - k]);
        }
    }
    if k > 0 {
        assert(t[0] == 48);
    } else {
        assert(t =~= decimal_bytes(n as nat));
    }
    assert((seq![43u8] + t).drop_first() =~= t);
    assert(seq![43u8] + zero_bytes(k) + decimal_bytes(n as nat) =~= seq![43u8] + t);
    assert(seq![43u8].drop_first() =~= Seq::<u8>::empty());
    if 0 <= i < s.len() && !(48 <= s[i] <= 57) && !(i == 0 && s[i] == 43) {
        if s.len() > 0 && s[0] == 43 {
            assert(s.drop_first()[i - 1] == s[i]);
        }
    }
    lemma_decimal_bytes(usize::MAX as nat + 1);
}

/// The sum of the first `n` sizes.
pub open spec fn prefix_sum(sizes: Seq<usize>, n: int) -> int
    decreases n,
{
    if n <= 0 {
        0
    } else {
        prefix_sum(sizes, n - 1) + sizes[n - 1]
    }
}

/// The lines of the lookup text that give sizes: all but the last.
pub open spec fn size_lines(lookup: Seq<u8>) -> Seq<Seq<u8>> {
    split_lines(lookup).drop_last()
}

/// The sizes the lookup text gives, where each of its size lines holds one.
pub open spec fn part_sizes(lookup: Seq<u8>) -> Seq<usize> {
    size_lines(lookup).map_values(|l: Seq<u8>| parsed_size(l)->0)
}

/// The lookup text describes a gameplay file of `history_length` bytes: it gives the sizes
/// of the store, of the tree and of any number of frame changes, and the parts lie within
/// the file.
pub open spec fn layout_fits(lookup: Seq<u8>, history_length: nat) -> bool {
    &&& split_lines(lookup).len() >= 3
    &&& forall|i: int| 0 <= i < size_lines(lookup).len() ==> (#[trigger] parsed_size(size_lines(lookup)[i])) is Some
    &&& prefix_sum(part_sizes(lookup), size_lines(lookup).len() as int) <= history_length
}

/// Where each part of a gameplay file lies, as ranges of byte positions.
pub struct HistoryLayout {
    pub ecs_bytes: (usize, usize),
    pub tree_bytes: (usize, usize),
    pub change_bytes: Vec<(usize, usize)>,
}

proof fn lemma_split_nonempty(b: Seq<u8>)
    ensures
        split_lines(b).len() >= 1,
    decreases b.len(),
{
    if b.len() > 0 {
        lemma_split_nonempty(b.drop_last());
    }
}

proof fn lemma_prefix_sum_monotone(sizes: Seq<usize>, i: int, j: int)
    requires
        0 <= i <= j,
    ensures
        prefix_sum(sizes, i) <= prefix_sum(sizes, j),
    decreases j - i,
{
    if i < j {
        lemma_prefix_sum_monotone(sizes, i, j - 1);
    }
}

/// Splits the lookup text into its lines.
fn lines_of(b: &[u8]) -> (r: Vec<Vec<u8>>)
    ensures
        r@.map_values(|l: Vec<u8>| l@) == split_lines(b@),
{
    let mut lines: Vec<Vec<u8>> = Vec::new();
    let mut current: Vec<u8> = Vec::new();
    let mut i: usize = 0;
    assert(b@.take(0) =~= Seq::<u8>::empty());
    assert(lines@.map_values(|l: Vec<u8>| l@).push(current@) =~= split_lines(b@.take(0)));
    while i < b.len()
        invariant
            i <= b.len(),
            lines@.map_values(|l: Vec<u8>| l@).push(current@) == split_lines(b@.take(i as int)),
        decreases b.len() - i,
    {
        let byte = b[i];
        let ghost before = lines@.map_values(|l: Vec<u8>| l@).push(current@);
        assert(b@.take(i as int + 1).drop_last() =~= b@.take(i as int));
        assert(b@.take(i as int + 1).last() == byte);
        if byte == 10 {
            let finished = current;
            lines.push(finished);
            current = Vec::new();
            assert(lines@.map_values(|l: Vec<u8>| l@).push(current@) =~= before.push(Seq::<u8>::empty()));
        } else {
            current.push(byte);
            assert(lines@.map_values(|l: Vec<u8>| l@).push(current@) =~= before.update(
                before.len() - 1,
                before.last().push(byte),
            ));
        }
        i = i + 1;
    }
    assert(b@.take(b.len() as int) =~= b@);
    let last = current;
    lines.push(last);
    lines
}

/// The number a line of the lookup text holds, if it holds one.
fn parse_size(line: &Vec<u8>) -> (r: Option<usize>)
    ensures
        r == parsed_size(line@),
{
    let mut start: usize = 0;
    if line.len() > 0 && line[0] == 43 {
        start = 1;
    }
    let ghost d = if line@.len() > 0 && line@[0] == 43 {
        line@.drop_first()
    } else {
        line@
    };
    assert(d =~= line@.skip(start as int));
    if start == line.len() {
        return None;
    }
    let mut value: usize = 0;
    let mut i: usize = start;
    while i < line.len()
        invariant
            start <= i <= line.len(),
            start < line.len(),
            d == line@.skip(start as int),
            d == (if line@.len() > 0 && line@[0] == 43 {
                line@.drop_first()
            } else {
                line@
            }),
            all_digits(line@.subrange(start as int, i as int)),
            value == digits_value(line@.subrange(start as int, i as int)),
        decreases line.len() - i,
    {
        let byte = line[i];
        assert(line@.subrange(start as int, i as int + 1).drop_last() =~= line@.subrange(start as int, i as int));
        if byte < 48 || byte > 57 {
            assert(d[(i - start) as int] == line@[i as int]);
            assert(!all_digits(d));
            return None;
        }
        let digit = (byte - 48) as usize;
        assert(digits_value(line@.subrange(start as int, i as int + 1)) == value * 10 + digit);
        let next = match value.checked_mul(10) {
            Some(tens) => tens.checked_add(digit),
            None => None,
        };
        match next {
            Some(n) => {
                value = n;
            },
            None => {
                proof {
                    if all_digits(d) {
                        lemma_digits_value_prefix(d, (i - start + 1) as int);
                        assert(d.subrange(0, i - start + 1) =~= line@.subrange(start as int, i as int + 1));
                    }
                }
                return None;
            },
        }
        i = i + 1;
    }
    assert(line@.subrange(start as int, line.len() as int) =~= d);
    Some(value)
}

/// The value of a prefix of digits is at most the value of all of them.
proof fn lemma_digits_value_prefix(d: Seq<u8>, n: int)
    requires
        0 <= n <= d.len(),
        all_digits(d),
    ensures
        digits_value(d.subrange(0, n)) <= digits_value(d),
    decreases d.len() - n,
{
    if n == d.len() {
        assert(d.subrange(0, n) =~= d);
    } else {
        lemma_digits_value_prefix(d, n + 1);
        assert(d.subrange(0, n + 1).drop_last() =~= d.subrange(0, n));
    }
}

/// Where the parts of a gameplay file of `history_length` bytes lie, as the lookup text
/// `byte_lookup` gives them: the store, then the tree, then each frame change, one after the
/// other from the start of the file. `None` when the text does not describe such a file.
pub fn history_layout(byte_lookup: &[u8], history_length: usize) -> (r: Option<HistoryLayout>)
    ensures
        r is Some <==> layout_fits(byte_lookup@, history_length as nat),
        r matches Some(l) ==> {
            let sizes = part_sizes(byte_lookup@);
            &&& l.ecs_bytes == (0usize, sizes[0])
            &&& l.tree_bytes == (sizes[0], (sizes[0] + sizes[1]) as usize)
            &&& l.change_bytes@.len() == sizes.len() - 2
            &&& forall|i: int|
                0 <= i < l.change_bytes@.len() ==> #[trigger] l.change_bytes@[i] == (prefix_sum(sizes, i + 2) as usize, prefix_sum(
                    sizes,
                    i + 3,
                ) as usize)
            &&& l.ecs_bytes.1 <= l.tree_bytes.1 <= history_length
            &&& forall|i: int|
                0 <= i < l.change_bytes@.len() ==> (#[trigger] l.change_bytes@[i]).0 <= l.change_bytes@[i].1 <= history_length
        },
{
    let lines = lines_of(byte_lookup);
    let ghost all = split_lines(byte_lookup@);
    let ghost sizes_spec = part_sizes(byte_lookup@);
    proof {
        lemma_split_nonempty(byte_lookup@);
    }
    assert(lines@.len() == all.len());
    if lines.len() < 3 {
        return None;
    }
    let count = lines.len() - 1;
    assert(size_lines(byte_lookup@).len() == count);
    let mut sizes: Vec<usize> = Vec::new();
    let mut total: usize = 0;
    let mut i: usize = 0;
    while i < count
        invariant
            i <= count,
            count == lines@.len() - 1,
            count == size_lines(byte_lookup@).len(),
            lines@.map_values(|l: Vec<u8>| l@) == all,
            all == split_lines(byte_lookup@),
            sizes_spec == part_sizes(byte_lookup@),
            sizes@ == sizes_spec.take(i as int),
            forall|j: int| 0 <= j < i ==> (#[trigger] parsed_size(size_lines(byte_lookup@)[j])) is Some,
            total == prefix_sum(sizes_spec, i as int),
            total <= history_length,
        decreases count - i,
    {
        assert(lines@[i as int]@ == size_lines(byte_lookup@)[i as int]) by {
            assert(lines@.map_values(|l: Vec<u8>| l@)[i as int] == lines@[i as int]@);
        }
        match parse_size(&lines[i]) {
            None => {
                return None;
            },
            Some(n) => {
                assert(sizes_spec[i as int] == n);
                if n > history_length - total {
                    proof {
                        lemma_prefix_sum_monotone(sizes_spec, i + 1, count as int);
                    }
                    return None;
                }
                total = total + n;
                sizes.push(n);
                assert(sizes@ =~= sizes_spec.take(i as int + 1));
            },
        }
        i = i + 1;
    }
    let ecs_bytes = (0usize, sizes[0]);
    assert(prefix_sum(sizes_spec, 0) == 0);
    assert(prefix_sum(sizes_spec, 1) == sizes_spec[0]);
    assert(prefix_sum(sizes_spec, 2) == sizes_spec[0] + sizes_spec[1]);
    proof {
        lemma_prefix_sum_monotone(sizes_spec, 2, count as int);
    }
    let tree_bytes = (sizes[0], sizes[0] + sizes[1]);
    let mut change_bytes: Vec<(usize, usize)> = Vec::new();
    let mut start: usize = sizes[0] + sizes[1];
    let mut k: usize = 2;
    while k < count
        invariant
            2 <= k <= count,
            count == sizes@.len(),
            sizes@ == sizes_spec.take(count as int),
            sizes_spec.len() == count,
            prefix_sum(sizes_spec, count as int) <= history_length,
            start == prefix_sum(sizes_spec, k as int),
            change_bytes@.len() == k - 2,
            forall|j: int| 0 <= j < change_bytes@.len() ==> (#[trigger] change_bytes@[j]).0 <= change_bytes@[j].1 <= history_length,
            forall|j: int|
                0 <= j < change_bytes@.len() ==> #[trigger] change_bytes@[j] == (prefix_sum(sizes_spec, j + 2) as usize, prefix_sum(
                    sizes_spec,
                    j + 3,
                ) as usize),
        decreases count - k,
    {
        proof {
            lemma_prefix_sum_monotone(sizes_spec, k + 1, count as int);
        }
        let end = start + sizes[k];
        change_bytes.push((start, end));
        start = end;
        k = k + 1;
    }
    Some(HistoryLayout { ecs_bytes, tree_bytes, change_bytes })
}

} // verus!
