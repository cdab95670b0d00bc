//! Reading numbers out of what a remote command printed: the first line of
//! the output, its second column, and a decimal number.

use vstd::prelude::*;

verus! {

pub open spec fn is_digit(b: u8) -> bool {
    48 <= b <= 57
}

/// Blank, tab, line feed, vertical tab, form feed or carriage return.
pub open spec fn is_space(b: u8) -> bool {
    b == 32 || (9 <= b <= 13)
}

pub open spec fn all_digits(s: Seq<u8>) -> bool {
    forall|i: int| 0 <= i < s.len() ==> is_digit(#[trigger] s[i])
}

/// The number that the decimal digits `s` stand for.
pub open spec fn digits_value(s: Seq<u8>) -> nat
    decreases s.len(),
{
    if s.len() == 0 {
        0
    } else {
        digits_value(s.drop_last()) * 10 + (s.last() - 48) as nat
    }
}

/// The number that `s` reads as: an optional plus sign, then one decimal
/// digit at least and nothing else, no larger than the machine can hold.
pub open spec fn parsed(s: Seq<u8>) -> Option<usize> {
    let body = if s.len() > 0 && s[0] == 43 {
        s.subrange(1, s.len() as int)
    } else {
        s
    };
    if body.len() > 0 && all_digits(body) && digits_value(body) <= usize::MAX {
        Some(digits_value(body) as usize)
    } else {
        None
    }
}

/// Where the first line of `s` ends: at its first line feed, or at the end.
pub open spec fn line_end(s: Seq<u8>, from: int) -> int
    decreases s.len() - from,
{
    if 0 <= from < s.len() && s[from] != 10 {
        line_end(s, from + 1)
    } else {
        from
    }
}

/// The first line of `s` without its line ending, which is a line feed or
/// a carriage return and a line feed. Empty output has no line.
pub open spec fn first_line(s: Seq<u8>) -> Option<Seq<u8>> {
    let end = line_end(s, 0);
    if s.len() == 0 {
        None
    } else if end < s.len() && end > 0 && s[end - 1] == 13 {
        Some(s.subrange(0, end - 1))
    } else {
        Some(s.subrange(0, end))
    }
}

/// The first index from `from` on that holds no space, or the end.
pub open spec fn skip_spaces(s: Seq<u8>, from: int) -> int
    decreases s.len() - from,
{
    if 0 <= from < s.len() && is_space(s[from]) {
        skip_spaces(s, from + 1)
    } else {
        from
    }
}

/// The first index from `from` on that holds a space, or the end.
pub open spec fn skip_word(s: Seq<u8>, from: int) -> int
    decreases s.len() - from,
{
    if 0 <= from < s.len() && !is_space(s[from]) {
        skip_word(s, from + 1)
    } else {
        from
    }
}

/// The second of the words of `s` that spaces separate, if it has two.
pub open spec fn second_word(s: Seq<u8>) -> Option<Seq<u8>> {
    let start = skip_spaces(s, skip_word(s, skip_spaces(s, 0)));
    let end = skip_word(s, start);
    if start < end <= s.len() {
        Some(s.subrange(start, end))
    } else {
        None
    }
}

/// The process id that `pgrep` printed: its first line, read as a number.
pub open spec fn pid_in(s: Seq<u8>) -> Option<usize> {
    match first_line(s) {
        Some(line) => parsed(line),
        None => None,
    }
}

/// The resident memory in a line of a process's status file: the second
/// column of the first line, read as a number.
pub open spec fn memory_in(s: Seq<u8>) -> Option<usize> {
    match first_line(s) {
        Some(line) => match second_word(line) {
            Some(word) => parsed(word),
            None => None,
        },
        None => None,
    }
}

proof fn lemma_prefix_value(s: Seq<u8>, k: int)
    requires
        0 <= k <= s.len(),
    ensures
        digits_value(s.subrange(0, k)) <= digits_value(s),
    decreases s.len(),
{
    if k == s.len() {
        assert(s.subrange(0, k) =~= s);
    } else {
        assert(s.subrange(0, k) =~= s.drop_last().subrange(0, k));
        lemma_prefix_value(s.drop_last(), k);
    }
}

/// Reads `bytes[start..end]` as a number.
pub fn parse_number(bytes: &[u8], start: usize, end: usize) -> (n: Option<usize>)
    requires
        start <= end <= bytes@.len(),
    ensures
        n == parsed(bytes@.subrange(start as int, end as int)),
{
    let ghost whole = bytes@.subrange(start as int, end as int);
    let lo: usize = if start < end && bytes[start] == 43 {
        start + 1
    } else {
        start
    };
    let ghost body = bytes@.subrange(lo as int, end as int);
    proof {
        if start < end {
            assert(whole[0] == bytes@[start as int]);
        }
        if lo > start {
            assert(body =~= whole.subrange(1, whole.len() as int));
        } else {
            assert(body =~= whole);
        }
    }
    if lo == end {
        return None;
    }
    let mut acc: usize = 0;
    let mut i: usize = lo;
    while i < end
        invariant
            start <= lo <= i <= end <= bytes@.len(),
            whole == bytes@.subrange(start as int, end as int),
            body == bytes@.subrange(lo as int, end as int),
            body == (if whole.len() > 0 && whole[0] == 43 {
                whole.subrange(1, whole.len() as int)
            } else {
                whole
            }),
            all_digits(bytes@.subrange(lo as int, i as int)),
            acc == digits_value(bytes@.subrange(lo as int, i as int)),
        decreases end - i,
    {
        let b: u8 = bytes[i];
        let ghost upto = bytes@.subrange(lo as int, i as int + 1);
        proof {
            assert(upto.drop_last() =~= bytes@.subrange(lo as int, i as int));
            assert(upto.last() == b);
            assert(body[i - lo] == b);
            assert(upto =~= body.subrange(0, i - lo + 1));
        }
        if b < 48 || b > 57 {
            assert(!is_digit(body[i - lo]));
            return None;
        }
        let d: usize = (b - 48) as usize;
        if acc > (usize::MAX - d) / 10 {
            proof {
                assert(digits_value(upto) > usize::MAX);
                lemma_prefix_value(body, i - lo + 1);
            }
            return None;
        }
        acc = acc * 10 + d;
        i += 1;
        proof {
            assert forall|j: int| 0 <= j < upto.len() implies is_digit(#[trigger] upto[j]) by {
                if j < upto.len() - 1 {
                    assert(upto[j] == bytes@.subrange(lo as int, i as int - 1)[j]);
                }
            }
        }
    }
    proof {
        assert(bytes@.subrange(lo as int, i as int) =~= body);
    }
    Some(acc)
}

/// Finds the first line of `bytes`: where it ends, its line ending left
/// out. `None` for empty output.
pub fn first_line_end(bytes: &[u8]) -> (end: Option<usize>)
    ensures
        match end {
            Some(e) => e <= bytes@.len() && first_line(bytes@) == Some(
                bytes@.subrange(0, e as int),
            ),
            None => first_line(bytes@).is_none(),
        },
{
    if bytes.len() == 0 {
        return None;
    }
    let mut i: usize = 0;
    while i < bytes.len() && bytes[i] != 10
        invariant
            i <= bytes@.len(),
            line_end(bytes@, 0) == line_end(bytes@, i as int),
        decreases bytes@.len() - i,
    {
        i += 1;
    }
    if i < bytes.len() && i > 0 && bytes[i - 1] == 13 {
        Some(i - 1)
    } else {
        Some(i)
    }
}

fn after_spaces(bytes: &[u8], from: usize, end: usize) -> (at: usize)
    requires
        from <= end <= bytes@.len(),
    ensures
        from <= at <= end,
        at == skip_spaces(bytes@.subrange(0, end as int), from as int),
{
    let ghost s = bytes@.subrange(0, end as int);
    let mut i: usize = from;
    while i < end && (bytes[i] == 32 || (9 <= bytes[i] && bytes[i] <= 13))
        invariant
            from <= i <= end <= bytes@.len(),
            s == bytes@.subrange(0, end as int),
            skip_spaces(s, from as int) == skip_spaces(s, i as int),
        decreases end - i,
    {
        assert(s[i as int] == bytes@[i as int]);
        i += 1;
    }
    proof {
        if i < end {
            assert(s[i as int] == bytes@[i as int]);
        }
    }
    i
}

fn after_word(bytes: &[u8], from: usize, end: usize) -> (at: usize)
    requires
        from <= end <= bytes@.len(),
    ensures
        from <= at <= end,
        at == skip_word(bytes@.subrange(0, end as int), from as int),
{
    let ghost s = bytes@.subrange(0, end as int);
    let mut i: usize = from;
    while i < end && !(bytes[i] == 32 || (9 <= bytes[i] && bytes[i] <= 13))
        invariant
            from <= i <= end <= bytes@.len(),
            s == bytes@.subrange(0, end as int),
            skip_word(s, from as int) == skip_word(s, i as int),
        decreases end - i,
    {
        assert(s[i as int] == bytes@[i as int]);
        i += 1;
    }
    proof {
        if i < end {
            assert(s[i as int] == bytes@[i as int]);
        }
    }
    i
}

/// The process id in the output of `pgrep`.
pub fn parse_pid(stdout: &[u8]) -> (pid: Option<usize>)
    ensures
        pid == pid_in(stdout@),
{
    match first_line_end(stdout) {
        Some(end) => parse_number(stdout, 0, end),
        None => None,
    }
}

/// The resident memory in the output of `grep VmRSS` on a status file.
pub fn parse_memory(stdout: &[u8]) -> (mem: Option<usize>)
    ensures
        mem == memory_in(stdout@),
{
    match first_line_end(stdout) {
        Some(end) => {
            let ghost line = stdout@.subrange(0, end as int);
            let a: usize = after_spaces(stdout, 0, end);
            let b: usize = after_word(stdout, a, end);
            let c: usize = after_spaces(stdout, b, end);
            let d: usize = after_word(stdout, c, end);
            if c < d {
                assert(line.subrange(c as int, d as int) =~= stdout@.subrange(c as int, d as int));
                parse_number(stdout, c, d)
            } else {
                None
            }
        },
        None => None,
    }
}

} // verus!
