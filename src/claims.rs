use crate::role::Role;
use vstd::prelude::*;

verus! {

/// The signed payload of a token: who it was issued to, with which role, and
/// until when (seconds since the Unix epoch) it is valid.
#[derive(Debug, Clone, Copy, PartialEq, Eq, Structural)]
pub struct Claims {
    pub exp: usize,
    pub uid: i32,
    pub role: Role,
}

pub open spec fn is_digit(c: char) -> bool {
    '0' <= c && c <= '9'
}

pub open spec fn digit_value(c: char) -> int {
    c as int - '0' as int
}

/// The decimal digit for `d`, which is below ten.
pub open spec fn digit(d: int) -> char {
    if d <= 0 {
        '0'
    } else if d == 1 {
        '1'
    } else if d == 2 {
        '2'
    } else if d == 3 {
        '3'
    } else if d == 4 {
        '4'
    } else if d == 5 {
        '5'
    } else if d == 6 {
        '6'
    } else if d == 7 {
        '7'
    } else if d == 8 {
        '8'
    } else {
        '9'
    }
}

/// Decimal notation of `n`, without leading zeros.
pub open spec fn decimal(n: nat) -> Seq<char>
    decreases n,
{
    if n < 10 {
        seq![digit(n as int)]
    } else {
        decimal(n / 10).push(digit((n % 10) as int))
    }
}

/// Decimal notation of a signed integer.
pub open spec fn int_text(i: int) -> Seq<char> {
    if i < 0 {
        seq!['-'] + decimal((-i) as nat)
    } else {
        decimal(i as nat)
    }
}

/// The number that a run of decimal digits denotes.
pub open spec fn digits_value(s: Seq<char>) -> int
    decreases s.len(),
{
    if s.len() == 0 {
        0
    } else {
        digits_value(s.drop_last()) * 10 + digit_value(s.last())
    }
}

pub open spec fn all_digits(s: Seq<char>) -> bool {
    forall|i: int| 0 <= i < s.len() ==> is_digit(#[trigger] s[i])
}

pub open spec fn role_name(r: Role) -> Seq<char> {
    match r {
        Role::NoRole => "None"@,
        Role::ReadAll => "ReadAll"@,
        Role::WriteAll => "WriteAll"@,
        Role::Admin => "Admin"@,
    }
}

/// The JSON text of the claims, as carried in a token:
/// `{"exp":<exp>,"uid":<uid>,"role":"<role>"}`.
pub open spec fn claims_json(c: Claims) -> Seq<char> {
    "{\"exp\":"@ + decimal(c.exp as nat) + ",\"uid\":"@ + int_text(c.uid as int) + ",\"role\":\""@
        + role_name(c.role) + "\"}"@
}

proof fn lemma_digit(d: int)
    requires
        0 <= d < 10,
    ensures
        is_digit(digit(d)),
        digit_value(digit(d)) == d,
{
}

pub(crate) proof fn lemma_decimal(n: nat)
    ensures
        decimal(n).len() >= 1,
        all_digits(decimal(n)),
        digits_value(decimal(n)) == n,
    decreases n,
{
    if n < 10 {
        lemma_digit(n as int);
        let s = decimal(n);
        assert(s.drop_last() =~= Seq::<char>::empty());
        assert(digits_value(s.drop_last()) == 0);
        assert(s.last() == digit(n as int));
        assert(digits_value(s) == digits_value(s.drop_last()) * 10 + digit_value(s.last()));
    } else {
        lemma_decimal(n / 10);
        lemma_digit((n % 10) as int);
        let s = decimal(n);
        assert(s.drop_last() =~= decimal(n / 10));
        assert(s.last() == digit((n % 10) as int));
        assert(digits_value(s) == digits_value(decimal(n / 10)) * 10 + (n % 10) as int);
        assert((n / 10) * 10 + n % 10 == n);
        assert(all_digits(s)) by {
            assert forall|i: int| 0 <= i < s.len() implies is_digit(#[trigger] s[i]) by {
                if i < s.len() - 1 {
                    assert(s[i] == decimal(n / 10)[i]);
                }
            }
        }
    }
}

proof fn lemma_prefix_value(s: Seq<char>, k: int)
    requires
        all_digits(s),
        0 <= k <= s.len(),
    ensures
        0 <= digits_value(s.take(k)) <= digits_value(s),
    decreases s.len(),
{
    if s.len() > 0 {
        let t = s.drop_last();
        assert(all_digits(t)) by {
            assert forall|i: int| 0 <= i < t.len() implies is_digit(#[trigger] t[i]) by {
                assert(t[i] == s[i]);
            }
        }
        assert(is_digit(s[s.len() - 1]));
        if k == s.len() {
            assert(s.take(k) =~= s);
            lemma_prefix_value(t, 0);
        } else {
            lemma_prefix_value(t, k);
            assert(t.take(k) =~= s.take(k));
        }
    } else {
        assert(s.take(k) =~= s);
    }
}


/// The text for a digit below ten.
fn digit_text(d: u64) -> (r: &'static str)
    requires
        d < 10,
    ensures
        r@ == seq![digit(d as int)],
{
    if d == 0 {
        proof { reveal_strlit("0"); }
        "0"
    } else if d == 1 {
        proof { reveal_strlit("1"); }
        "1"
    } else if d == 2 {
        proof { reveal_strlit("2"); }
        "2"
    } else if d == 3 {
        proof { reveal_strlit("3"); }
        "3"
    } else if d == 4 {
        proof { reveal_strlit("4"); }
        "4"
    } else if d == 5 {
        proof { reveal_strlit("5"); }
        "5"
    } else if d == 6 {
        proof { reveal_strlit("6"); }
        "6"
    } else if d == 7 {
        proof { reveal_strlit("7"); }
        "7"
    } else if d == 8 {
        proof { reveal_strlit("8"); }
        "8"
    } else {
        proof { reveal_strlit("9"); }
        "9"
    }
}

/// Appends the decimal notation of `n`.
pub(crate) fn push_decimal(out: &mut String, n: u64)
    ensures
        final(out)@ == old(out)@ + decimal(n as nat),
    decreases n,
{
    let ghost start = out@;
    if n >= 10 {
        push_decimal(out, n / 10);
    }
    out.append(digit_text(n % 10));
    assert(out@ =~= start + decimal(n as nat));
}


/// Reads the maximal run of decimal digits that starts at `start`; `None`
/// when the run is empty or its value exceeds `u64::MAX`.
pub(crate) fn read_digits(s: &str, start: usize) -> (r: Option<(u64, usize)>)
    requires
        start <= s@.len(),
    ensures
        r matches Some((v, e)) ==> start < e <= s@.len(),
        forall|e: int|
            #![trigger s@.subrange(start as int, e)]
            start < e <= s@.len() && all_digits(s@.subrange(start as int, e)) && (e == s@.len()
                || !is_digit(s@[e])) && digits_value(s@.subrange(start as int, e)) <= u64::MAX
                ==> r == Some((digits_value(s@.subrange(start as int, e)) as u64, e as usize)),
{
    let n = s.unicode_len();
    let mut i: usize = start;
    let mut acc: u64 = 0;
    while i < n && '0' <= s.get_char(i) && s.get_char(i) <= '9'
        invariant
            start <= i <= n,
            n == s@.len(),
            all_digits(s@.subrange(start as int, i as int)),
            acc == digits_value(s@.subrange(start as int, i as int)),
        decreases n - i,
    {
        let c = s.get_char(i);
        let d = (c as u32 - '0' as u32) as u64;
        let ghost prev = s@.subrange(start as int, i as int);
        let ghost next = s@.subrange(start as int, i + 1);
        proof {
            assert(next.drop_last() =~= prev);
            assert(next.last() == c);
            assert(all_digits(next)) by {
                assert forall|j: int| 0 <= j < next.len() implies is_digit(#[trigger] next[j]) by {
                    if j < prev.len() {
                        assert(next[j] == prev[j]);
                    }
                }
            }
        }
        if acc > (u64::MAX - d) / 10 {
            proof {
                assert(digits_value(next) > u64::MAX) by (nonlinear_arith)
                    requires
                        digits_value(next) == acc * 10 + d,
                        acc > (u64::MAX - d) / 10,
                        d <= 9,
                ;
                assert forall|e: int|
                    #![trigger s@.subrange(start as int, e)]
                    start < e <= s@.len() && all_digits(s@.subrange(start as int, e)) && (e
                        == s@.len() || !is_digit(s@[e])) implies digits_value(
                    s@.subrange(start as int, e),
                ) > u64::MAX by {
                    let run = s@.subrange(start as int, e);
                    if e <= i {
                        if e < s@.len() {
                            assert(s@[e] == s@.subrange(start as int, i as int)[e - start]
                                || e == i);
                        }
                    }
                    assert(e > i);
                    lemma_prefix_value(run, i + 1 - start);
                    assert(run.take(i + 1 - start) =~= next);
                }
            }
            return None;
        }
        proof {
            assert(acc * 10 + d <= u64::MAX) by (nonlinear_arith)
                requires
                    acc <= (u64::MAX - d) / 10,
                    d <= 9,
            ;
        }
        acc = acc * 10 + d;
        i = i + 1;
    }
    proof {
        assert forall|e: int|
            #![trigger s@.subrange(start as int, e)]
            start < e <= s@.len() && all_digits(s@.subrange(start as int, e)) && (e == s@.len()
                || !is_digit(s@[e])) implies e == i by {
            let run = s@.subrange(start as int, e);
            if e < i {
                assert(s@[e] == s@.subrange(start as int, i as int)[e - start]);
            }
            if e > i {
                assert(s@[i as int] == run[i - start]);
            }
        }
    }
    if i == start {
        None
    } else {
        Some((acc, i))
    }
}

/// Appends the decimal notation of a signed integer.
pub(crate) fn push_int(out: &mut String, i: i32)
    ensures
        final(out)@ == old(out)@ + int_text(i as int),
{
    let ghost start = out@;
    if i < 0 {
        out.append("-");
        push_decimal(out, (0 - (i as i64)) as u64);
        proof {
            reveal_strlit("-");
        }
    } else {
        push_decimal(out, i as u64);
    }
    assert(out@ =~= start + int_text(i as int));
}

impl Role {
    /// The name under which the role travels in a token.
    pub fn name(&self) -> (r: &'static str)
        ensures
            r@ == role_name(*self),
    {
        match self {
            Role::NoRole => "None",
            Role::ReadAll => "ReadAll",
            Role::WriteAll => "WriteAll",
            Role::Admin => "Admin",
        }
    }
}

impl Claims {
    /// The JSON text of these claims.
    pub fn to_json(&self) -> (r: String)
        ensures
            r@ == claims_json(*self),
    {
        let mut out = String::new();
        out.append("{\"exp\":");
        push_decimal(&mut out, self.exp as u64);
        out.append(",\"uid\":");
        push_int(&mut out, self.uid);
        out.append(",\"role\":\"");
        out.append(self.role.name());
        out.append("\"}");
        proof {
            assert(out@ =~= claims_json(*self));
        }
        out
    }
}

} // verus!
