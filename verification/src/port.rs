//! The controller handshake: one line of ASCII text on the forked
//! process's standard input carries a decimal TCP port number. The line is
//! validated here; end-of-input with no line at all is the clean "no more
//! sessions" signal and never reaches this parser.

use vstd::prelude::*;

verus! {

/// ASCII whitespace that may trail the controller's line.
pub open spec fn is_ascii_space(b: u8) -> bool {
    b == 32 || b == 9 || b == 10 || b == 13
}

/// The line with trailing ASCII whitespace removed.
pub open spec fn trim_trailing_space(s: Seq<u8>) -> Seq<u8>
    decreases s.len(),
{
    if s.len() > 0 && is_ascii_space(s.last()) {
        trim_trailing_space(s.drop_last())
    } else {
        s
    }
}

/// A non-empty run of ASCII decimal digits.
pub open spec fn is_dec_digits(s: Seq<u8>) -> bool {
    s.len() > 0 && forall|i: int| 0 <= i < s.len() ==> 48 <= #[trigger] s[i] <= 57
}

/// The value of a run of ASCII decimal digits.
pub open spec fn dec_val(s: Seq<u8>) -> int
    decreases s.len(),
{
    if s.len() == 0 {
        0
    } else {
        dec_val(s.drop_last()) * 10 + (s.last() - 48)
    }
}

/// The port number a controller line denotes, if any: the line, less
/// trailing whitespace, must be a run of decimal digits whose value fits a
/// TCP port.
pub open spec fn port_of(line: Seq<u8>) -> Option<u16> {
    let t = trim_trailing_space(line);
    if is_dec_digits(t) && dec_val(t) <= 65535 {
        Some(dec_val(t) as u16)
    } else {
        None
    }
}

proof fn lemma_dec_val_nonneg(s: Seq<u8>)
    requires
        forall|i: int| 0 <= i < s.len() ==> 48 <= #[trigger] s[i] <= 57,
    ensures
        dec_val(s) >= 0,
    decreases s.len(),
{
    if s.len() > 0 {
        lemma_dec_val_nonneg(s.drop_last());
    }
}

proof fn lemma_dec_val_prefix(s: Seq<u8>, k: int)
    requires
        forall|i: int| 0 <= i < s.len() ==> 48 <= #[trigger] s[i] <= 57,
        0 <= k <= s.len(),
    ensures
        dec_val(s.take(k)) <= dec_val(s),
    decreases s.len(),
{
    if k == s.len() {
        assert(s.take(k) =~= s);
    } else {
        assert(s.drop_last().take(k) =~= s.take(k));
        lemma_dec_val_prefix(s.drop_last(), k);
        lemma_dec_val_nonneg(s.drop_last());
    }
}

fn is_space_byte(b: u8) -> (r: bool)
    ensures
        r == is_ascii_space(b),
{
    b == 32 || b == 9 || b == 10 || b == 13
}

/// Parses the controller's line into a port number, or rejects it.
pub fn parse_port(line: &Vec<u8>) -> (r: Option<u16>)
    ensures
        r == port_of(line@),
{
    let mut end: usize = line.len();
    proof {
        assert(line@.take(end as int) =~= line@);
    }
    while end > 0 && is_space_byte(line[end - 1])
        invariant
            0 <= end <= line.len(),
            trim_trailing_space(line@) == trim_trailing_space(line@.take(end as int)),
        decreases end,
    {
        proof {
            assert(line@.take(end as int).last() == line@[end - 1]);
            assert(line@.take(end as int).drop_last() =~= line@.take(end as int - 1));
        }
        end = end - 1;
    }
    let ghost t = trim_trailing_space(line@);
    proof {
        if end > 0 {
            assert(line@.take(end as int).last() == line@[end - 1]);
        }
        assert(t == line@.take(end as int));
    }
    if end == 0 {
        return None;
    }
    let mut i: usize = 0;
    let mut val: u32 = 0;
    while i < end
        invariant
            0 <= i <= end <= line.len(),
            t == line@.take(end as int),
            t == trim_trailing_space(line@),
            forall|j: int| 0 <= j < i ==> 48 <= #[trigger] line@[j] <= 57,
            val == dec_val(t.take(i as int)),
            val <= 65535,
        decreases end - i,
    {
        let b = line[i];
        if b < 48 || b > 57 {
            proof {
                assert(t[i as int] == line@[i as int]);
                assert(!is_dec_digits(t));
            }
            return None;
        }
        let d = (b - 48) as u32;
        let next = val * 10 + d;
        proof {
            assert(t.take(i as int + 1).drop_last() =~= t.take(i as int));
            assert(t.take(i as int + 1).last() == line@[i as int]);
            assert(next == dec_val(t.take(i as int + 1)));
        }
        if next > 65535 {
            proof {
                if is_dec_digits(t) {
                    lemma_dec_val_prefix(t, i as int + 1);
                }
            }
            return None;
        }
        val = next;
        i = i + 1;
    }
    proof {
        assert(t.take(end as int) =~= t);
        assert(forall|j: int| 0 <= j < t.len() ==> 48 <= #[trigger] t[j] <= 57);
        assert(is_dec_digits(t));
    }
    Some(val as u16)
}

} // verus!
