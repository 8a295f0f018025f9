//! Materialized comment paths: `0.5.9` is comment 9, whose parent is comment
//! 5, under the root `0`.
use vstd::prelude::*;

verus! {

/// Why the parent of a comment could not be read from its path.
#[derive(Debug, Clone, Copy, PartialEq, Eq)]
pub enum PathError {
    /// The path has a single segment: there is no parent in it.
    MissingParent,
    /// The parent segment is not a decimal number that fits an `i32`.
    InvalidParent,
}

/// The position of the last `.` among the first `end` characters of `s`, or -1.
pub open spec fn last_dot(s: Seq<char>, end: int) -> int
    decreases end,
{
    if end <= 0 {
        -1
    } else if s[end - 1] == '.' {
        end - 1
    } else {
        last_dot(s, end - 1)
    }
}

pub open spec fn is_digit(c: char) -> bool {
    '0' <= c && c <= '9'
}

pub open spec fn all_digits(s: Seq<char>) -> bool {
    forall|i: int| 0 <= i < s.len() ==> is_digit(#[trigger] s[i])
}

/// The number that the decimal digits `s` write.
pub open spec fn digits_value(s: Seq<char>) -> int
    decreases s.len(),
{
    if s.len() == 0 {
        0
    } else {
        digits_value(s.drop_last()) * 10 + ((s.last() as u32) as int - 48)
    }
}

/// The second-to-last segment of a dot-separated path.
pub open spec fn parent_segment(s: Seq<char>) -> Seq<char> {
    let j = last_dot(s, s.len() as int);
    s.subrange(last_dot(s, j) + 1, j)
}

/// The parent id that path `s` names.
pub open spec fn parse_parent(s: Seq<char>) -> Result<i32, PathError> {
    let seg = parent_segment(s);
    if last_dot(s, s.len() as int) < 0 {
        Err(PathError::MissingParent)
    } else if seg.len() > 0 && all_digits(seg) && digits_value(seg) <= i32::MAX {
        Ok(digits_value(seg) as i32)
    } else {
        Err(PathError::InvalidParent)
    }
}

proof fn lemma_last_dot_range(s: Seq<char>, end: int)
    requires
        end <= s.len(),
    ensures
        -1 <= last_dot(s, end) < end || (end <= 0 && last_dot(s, end) == -1),
        last_dot(s, end) >= 0 ==> s[last_dot(s, end)] == '.',
    decreases end,
{
    if end > 0 && s[end - 1] != '.' {
        lemma_last_dot_range(s, end - 1);
    }
}

proof fn lemma_digits_value_prefix(s: Seq<char>, i: int)
    requires
        all_digits(s),
        0 <= i <= s.len(),
    ensures
        0 <= digits_value(s.take(i)) <= digits_value(s),
    decreases s.len(),
{
    if s.len() == 0 {
        assert(s.take(i) =~= s);
    } else {
        let p = s.drop_last();
        assert(all_digits(p)) by {
            assert forall|k: int| 0 <= k < p.len() implies is_digit(#[trigger] p[k]) by {
                assert(is_digit(s[k]));
            }
        }
        assert(is_digit(s[s.len() - 1]));
        if i < s.len() {
            lemma_digits_value_prefix(p, i);
            assert(p.take(i) =~= s.take(i));
            lemma_digits_value_prefix(p, p.len() as int);
            assert(p.take(p.len() as int) =~= p);
        } else {
            lemma_digits_value_prefix(p, p.len() as int);
            assert(p.take(p.len() as int) =~= p);
            assert(s.take(i) =~= s);
        }
    }
}

/// Scans back from `end` for the last `.` before it; returns its position
/// plus one, or 0 where there is none.
fn after_last_dot(path: &str, end: usize) -> (r: usize)
    requires
        end <= path@.len(),
    ensures
        r as int == last_dot(path@, end as int) + 1,
{
    let mut j = end;
    while j > 0 && path.get_char(j - 1) != '.'
        invariant
            0 <= j <= end <= path@.len(),
            last_dot(path@, j as int) == last_dot(path@, end as int),
        decreases j,
    {
        j = j - 1;
    }
    j
}

/// The number written by the decimal digits `s[start..end]`, where they are
/// one or more digits and write a number no greater than `max`.
pub open spec fn digits_within(s: Seq<char>, start: int, end: int, max: int) -> Option<int> {
    let seg = s.subrange(start, end);
    if seg.len() > 0 && all_digits(seg) && digits_value(seg) <= max {
        Some(digits_value(seg))
    } else {
        None
    }
}

/// Reads the decimal digits `s[start..end]`; see `digits_within`.
pub fn read_digits(s: &str, start: usize, end: usize, max: i64) -> (r: Option<i64>)
    requires
        start <= end <= s@.len(),
        0 <= max <= u32::MAX,
    ensures
        page_of(r) == digits_within(s@, start as int, end as int, max as int),
        r matches Some(v) ==> 0 <= v <= max,
{
    let ghost seg = s@.subrange(start as int, end as int);
    if start == end {
        return None;
    }
    let mut value: i64 = 0;
    let mut i = start;
    while i < end
        invariant
            start <= i <= end <= s@.len(),
            0 <= max <= u32::MAX,
            seg == s@.subrange(start as int, end as int),
            all_digits(seg.take(i - start)),
            value == digits_value(seg.take(i - start)),
            0 <= value <= max,
        decreases end - i,
    {
        let c = s.get_char(i);
        if c < '0' || c > '9' {
            proof {
                assert(seg[i - start] == c);
                assert(!is_digit(seg[i - start]));
                assert(!all_digits(seg));
            }
            return None;
        }
        let d = (c as u32 - '0' as u32) as i64;
        let ghost t = seg.take(i + 1 - start);
        proof {
            assert(t.drop_last() =~= seg.take(i - start));
            assert(t.last() == c);
            assert(all_digits(t)) by {
                assert forall|k: int| 0 <= k < t.len() implies is_digit(#[trigger] t[k]) by {
                    if k < t.len() - 1 {
                        assert(is_digit(seg.take(i - start)[k]));
                    }
                }
            }
        }
        value = value * 10 + d;
        proof {
            assert(value == digits_value(t));
        }
        if value > max {
            proof {
                if all_digits(seg) {
                    lemma_digits_value_prefix(seg, i + 1 - start);
                }
            }
            return None;
        }
        i = i + 1;
    }
    proof {
        assert(seg.take(end - start) =~= seg);
    }
    Some(value)
}

/// The integer that an `Option<i64>` holds, as a mathematical integer.
pub open spec fn page_of(r: Option<i64>) -> Option<int> {
    match r {
        Some(v) => Some(v as int),
        None => None,
    }
}

/// The id of the parent that `path` names: its second-to-last segment.
pub fn parent_of_path(path: &str) -> (r: Result<i32, PathError>)
    ensures
        r == parse_parent(path@),
{
    let n = path.unicode_len();
    let dot = after_last_dot(path, n);
    if dot == 0 {
        return Err(PathError::MissingParent);
    }
    let end = dot - 1;
    proof {
        lemma_last_dot_range(path@, n as int);
        lemma_last_dot_range(path@, end as int);
    }
    let start = after_last_dot(path, end);
    proof {
        assert(parent_segment(path@) =~= path@.subrange(start as int, end as int));
    }
    match read_digits(path, start, end, i32::MAX as i64) {
        Some(v) => Ok(v as i32),
        None => Err(PathError::InvalidParent),
    }
}

/// The `i32` that `s` writes in decimal, with an optional leading sign.
pub open spec fn decimal_i32(s: Seq<char>) -> Option<i32> {
    if s.len() > 0 && s[0] == '-' {
        match digits_within(s, 1, s.len() as int, 0x8000_0000) {
            Some(v) => Some((-v) as i32),
            None => None,
        }
    } else if s.len() > 0 && s[0] == '+' {
        match digits_within(s, 1, s.len() as int, i32::MAX as int) {
            Some(v) => Some(v as i32),
            None => None,
        }
    } else {
        match digits_within(s, 0, s.len() as int, i32::MAX as int) {
            Some(v) => Some(v as i32),
            None => None,
        }
    }
}

/// Reads an `i32` written in decimal, with an optional leading sign.
pub fn parse_i32(s: &str) -> (r: Option<i32>)
    ensures
        r == decimal_i32(s@),
{
    let n = s.unicode_len();
    if n > 0 && s.get_char(0) == '-' {
        match read_digits(s, 1, n, 0x8000_0000) {
            Some(v) => Some((-v) as i32),
            None => None,
        }
    } else if n > 0 && s.get_char(0) == '+' {
        match read_digits(s, 1, n, i32::MAX as i64) {
            Some(v) => Some(v as i32),
            None => None,
        }
    } else {
        match read_digits(s, 0, n, i32::MAX as i64) {
            Some(v) => Some(v as i32),
            None => None,
        }
    }
}

} // verus!
