use vstd::prelude::*;
use vstd::string::StrSliceExecFns;
use vstd::string::StringExecFns;

verus! {

/// The decimal digit character for one digit value.
pub open spec fn digit_char(d: int) -> char {
    if d == 0 {
        '0'
    } else if d == 1 {
        '1'
    } else if d == 2 {
        '2'
    } else if d == 3 {
        '3'
    } else if d == 4 {
        '4'
    } else if d == 5 {
        '5'
    } else if d == 6 {
        '6'
    } else if d == 7 {
        '7'
    } else if d == 8 {
        '8'
    } else {
        '9'
    }
}

/// The decimal rendering of a nonnegative number, most significant digit
/// first, without leading zeroes (a lone zero for 0).
pub open spec fn spec_digits(n: int) -> Seq<char>
    decreases n,
{
    if n < 10 {
        seq![digit_char(n)]
    } else {
        spec_digits(n / 10).push(digit_char(n % 10))
    }
}

/// The ticket code for a tenant and a creation instant:
/// `INC-<company>-<seconds>` for a tenant, `INC-GLB-<seconds>` for an
/// unscoped incident. Uniqueness is only as strong as the second-granular
/// timestamp; a same-second collision is reported by the caller, never
/// stored.
pub open spec fn spec_ticket_code(company_id: int, ts: int) -> Seq<char> {
    if company_id != 0 {
        "INC-"@ + spec_digits(company_id) + "-"@ + spec_digits(ts)
    } else {
        "INC-GLB-"@ + spec_digits(ts)
    }
}

/// One digit as a string slice.
fn digit_str(d: u8) -> (r: &'static str)
    requires
        d < 10,
    ensures
        r@ =~= seq![digit_char(d as int)],
{
    proof {
        reveal_strlit("0");
        reveal_strlit("1");
        reveal_strlit("2");
        reveal_strlit("3");
        reveal_strlit("4");
        reveal_strlit("5");
        reveal_strlit("6");
        reveal_strlit("7");
        reveal_strlit("8");
        reveal_strlit("9");
    }
    match d {
        0 => "0",
        1 => "1",
        2 => "2",
        3 => "3",
        4 => "4",
        5 => "5",
        6 => "6",
        7 => "7",
        8 => "8",
        _ => "9",
    }
}

/// Appends the decimal rendering of `n` to a string.
fn push_decimal(out: &mut String, n: u64)
    ensures
        final(out)@ == old(out)@ + spec_digits(n as int),
    decreases n,
{
    if n >= 10 {
        push_decimal(out, n / 10);
        out.append(digit_str((n % 10) as u8));
        assert(final(out)@ =~= old(out)@ + spec_digits(n as int));
    } else {
        out.append(digit_str(n as u8));
        assert(final(out)@ =~= old(out)@ + spec_digits(n as int));
    }
}

/// Builds the human-readable ticket code for a new incident.
pub fn make_ticket_code(company_id: i32, timestamp: i64) -> (r: String)
    requires
        company_id >= 0,
        timestamp >= 0,
    ensures
        r@ == spec_ticket_code(company_id as int, timestamp as int),
{
    let mut s = String::new();
    if company_id != 0 {
        s.append("INC-");
        push_decimal(&mut s, company_id as u64);
        s.append("-");
    } else {
        s.append("INC-GLB-");
    }
    push_decimal(&mut s, timestamp as u64);
    assert(s@ =~= spec_ticket_code(company_id as int, timestamp as int));
    s
}

/// A needle occurs contiguously somewhere in the haystack.
pub open spec fn spec_contains_seq(hay: Seq<char>, needle: Seq<char>) -> bool {
    exists|i: int|
        0 <= i <= hay.len() - needle.len() && #[trigger] hay.subrange(i, i + needle.len())
            == needle
}

/// Substring search, as the ticket-code list filter uses it.
pub fn str_contains(hay: &str, needle: &str) -> (r: bool)
    ensures
        r == spec_contains_seq(hay@, needle@),
{
    let hlen = hay.unicode_len();
    let nlen = needle.unicode_len();
    if nlen > hlen {
        return false;
    }
    if nlen == 0 {
        proof {
            assert(hay@.subrange(0, 0 + needle@.len() as int) =~= needle@);
            assert(spec_contains_seq(hay@, needle@));
        }
        return true;
    }
    let mut i: usize = 0;
    while i <= hlen - nlen
        invariant
            1 <= nlen <= hlen,
            hlen == hay@.len(),
            nlen == needle@.len(),
            0 <= i <= hlen - nlen + 1,
            forall|j: int|
                0 <= j < i ==> #[trigger] hay@.subrange(j, j + needle@.len()) != needle@,
        decreases hlen - nlen - i + 1,
    {
        let mut k: usize = 0;
        let mut matches = true;
        while k < nlen
            invariant
                hlen == hay@.len(),
                nlen == needle@.len(),
                0 <= i <= hlen - nlen,
                0 <= k <= nlen,
                matches ==> forall|m: int| 0 <= m < k ==> hay@[i + m] == needle@[m],
                !matches ==> hay@.subrange(i as int, i + needle@.len()) != needle@,
            decreases nlen - k,
        {
            if hay.get_char(i + k) != needle.get_char(k) {
                proof {
                    let sub = hay@.subrange(i as int, i + needle@.len());
                    assert(sub[k as int] == hay@[i + k]);
                }
                matches = false;
                k = nlen;
            } else {
                k = k + 1;
            }
        }
        if matches {
            proof {
                assert(hay@.subrange(i as int, i + needle@.len()) =~= needle@);
            }
            return true;
        }
        i = i + 1;
    }
    proof {
        assert forall|j: int|
            0 <= j <= hay@.len() - needle@.len() implies #[trigger] hay@.subrange(
            j,
            j + needle@.len(),
        ) != needle@ by {}
    }
    false
}

} // verus!
