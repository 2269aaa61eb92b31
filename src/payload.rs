use crate::claims::{
    claims_json, decimal, int_text, is_digit, lemma_decimal, push_decimal, push_int, read_digits,
    role_name, Claims,
};
use crate::role::Role;
use vstd::prelude::*;

verus! {

/// The members of a JSON object text, in key order, each value as its raw
/// JSON text; `None` where the text is not a JSON object.
pub uninterp spec fn json_object_members(text: Seq<char>) -> Option<Seq<(Seq<char>, Seq<char>)>>;

pub open spec fn members_view(v: Vec<(String, String)>) -> Seq<(Seq<char>, Seq<char>)> {
    v@.map_values(|p: (String, String)| (p.0@, p.1@))
}

pub open spec fn members_of(r: Option<Vec<(String, String)>>) -> Option<Seq<(Seq<char>, Seq<char>)>> {
    match r {
        Some(v) => Some(members_view(v)),
        None => None,
    }
}

/// A JSON string literal without escapes.
pub open spec fn quoted(s: Seq<char>) -> Seq<char> {
    seq!['"'] + s + seq!['"']
}

/// The members of the claims' JSON text, in key order.
pub open spec fn claims_members(c: Claims) -> Seq<(Seq<char>, Seq<char>)> {
    seq![
        ("exp"@, decimal(c.exp as nat)),
        ("role"@, quoted(role_name(c.role))),
        ("uid"@, int_text(c.uid as int)),
    ]
}

/// Relies on `serde_json::from_str` into a `BTreeMap<String, Box<RawValue>>`:
/// it accepts any JSON object, in any layout, and gives its members ordered
/// by key, each value as the raw JSON text that stood for it. Depends on the
/// text alone.
#[verifier::external_body]
fn object_members(text: &str) -> (r: Option<Vec<(String, String)>>)
    ensures
        members_of(r) == json_object_members(text@),
        forall|c: Claims| #[trigger] claims_json(c) == text@ ==> members_of(r) == Some(
            claims_members(c),
        ),
{
    let m = serde_json::from_str::<
        std::collections::BTreeMap<String, Box<serde_json::value::RawValue>>,
    >(text).ok()?;
    Some(m.into_iter().map(|(k, v)| (k, v.get().to_string())).collect())
}

/// `i` is the first member with key `key`.
pub open spec fn first_with_key(ms: Seq<(Seq<char>, Seq<char>)>, key: Seq<char>, i: int) -> bool {
    0 <= i < ms.len() && ms[i].0 == key && forall|j: int| 0 <= j < i ==> ms[j].0 != key
}

/// The value of the first member with key `key`.
pub open spec fn member(ms: Seq<(Seq<char>, Seq<char>)>, key: Seq<char>) -> Option<Seq<char>> {
    if exists|i: int| first_with_key(ms, key, i) {
        Some(ms[choose|i: int| first_with_key(ms, key, i)].1)
    } else {
        None
    }
}

/// The natural number written in decimal as `t`, if any.
pub open spec fn nat_of(t: Seq<char>) -> Option<nat> {
    if exists|n: nat| #[trigger] decimal(n) == t {
        Some(choose|n: nat| #[trigger] decimal(n) == t)
    } else {
        None
    }
}

/// The integer written in decimal as `t`, if any.
pub open spec fn int_of(t: Seq<char>) -> Option<int> {
    if exists|i: int| #[trigger] int_text(i) == t {
        Some(choose|i: int| #[trigger] int_text(i) == t)
    } else {
        None
    }
}

/// The role whose quoted name is `t`, if any.
pub open spec fn role_of(t: Seq<char>) -> Option<Role> {
    if exists|r: Role| #[trigger] quoted(role_name(r)) == t {
        Some(choose|r: Role| #[trigger] quoted(role_name(r)) == t)
    } else {
        None
    }
}

/// The claims that an object's members hold: `exp`, `uid` and `role` must
/// all be present and in range; other members are ignored.
pub open spec fn members_claims(ms: Seq<(Seq<char>, Seq<char>)>) -> Option<Claims> {
    match (member(ms, "exp"@), member(ms, "uid"@), member(ms, "role"@)) {
        (Some(e), Some(u), Some(r)) => match (nat_of(e), int_of(u), role_of(r)) {
            (Some(n), Some(i), Some(ro)) => if n <= usize::MAX && i32::MIN <= i <= i32::MAX {
                Some(Claims { exp: n as usize, uid: i as i32, role: ro })
            } else {
                None
            },
            _ => None,
        },
        _ => None,
    }
}

/// The claims in a payload text, in any JSON layout.
pub open spec fn payload_claims(text: Seq<char>) -> Option<Claims> {
    match json_object_members(text) {
        Some(ms) => members_claims(ms),
        None => None,
    }
}

proof fn lemma_decimal_injective(a: nat, b: nat)
    requires
        decimal(a) == decimal(b),
    ensures
        a == b,
{
    lemma_decimal(a);
    lemma_decimal(b);
}

proof fn lemma_int_text_injective(a: int, b: int)
    requires
        int_text(a) == int_text(b),
    ensures
        a == b,
{
    lemma_decimal((if a < 0 { -a } else { a }) as nat);
    lemma_decimal((if b < 0 { -b } else { b }) as nat);
    let t = int_text(a);
    if a < 0 && b >= 0 {
        assert(t[0] == '-');
        assert(!is_digit(t[0]));
    } else if a >= 0 && b < 0 {
        assert(t[0] == '-');
        assert(is_digit(decimal(a as nat)[0]));
    } else if a < 0 {
        assert(decimal((-a) as nat) =~= t.drop_first());
        assert(decimal((-b) as nat) =~= t.drop_first());
        lemma_decimal_injective((-a) as nat, (-b) as nat);
    } else {
        lemma_decimal_injective(a as nat, b as nat);
    }
}

proof fn lemma_quoted_role_injective(a: Role, b: Role)
    requires
        quoted(role_name(a)) == quoted(role_name(b)),
    ensures
        a == b,
{
    reveal_strlit("None");
    reveal_strlit("ReadAll");
    reveal_strlit("WriteAll");
    reveal_strlit("Admin");
    assert(quoted(role_name(a)).len() == role_name(a).len() + 2);
    assert(quoted(role_name(b)).len() == role_name(b).len() + 2);
}

proof fn lemma_first_unique(ms: Seq<(Seq<char>, Seq<char>)>, key: Seq<char>, i: int, k: int)
    requires
        first_with_key(ms, key, i),
        first_with_key(ms, key, k),
    ensures
        i == k,
{
}

/// Index of the first member with key `key`.
fn find_member(ms: &Vec<(String, String)>, key: &str) -> (r: Option<usize>)
    ensures
        r matches Some(i) ==> first_with_key(members_view(*ms), key@, i as int),
        r is None ==> member(members_view(*ms), key@) is None,
        r matches Some(i) ==> member(members_view(*ms), key@) == Some(ms@[i as int].1@),
{
    let ghost v = members_view(*ms);
    let k = String::from_str(key);
    let mut i: usize = 0;
    while i < ms.len()
        invariant
            i <= ms@.len(),
            v == members_view(*ms),
            k@ == key@,
            forall|j: int| 0 <= j < i ==> v[j].0 != key@,
        decreases ms@.len() - i,
    {
        assert(v[i as int] == (ms@[i as int].0@, ms@[i as int].1@));
        if ms[i].0 == k {
            proof {
                assert(first_with_key(v, key@, i as int));
                let c = choose|c: int| first_with_key(v, key@, c);
                lemma_first_unique(v, key@, i as int, c);
            }
            return Some(i);
        }
        i = i + 1;
    }
    None
}

/// Reads a non-negative decimal integer that fits a `usize`; exactly the
/// texts `decimal(n)` with `n <= usize::MAX` are accepted.
pub fn parse_exp(t: &String) -> (r: Option<usize>)
    ensures
        r == (match nat_of(t@) {
            Some(n) => if n <= usize::MAX {
                Some(n as usize)
            } else {
                None
            },
            None => None,
        }),
{
    let s = t.as_str();
    let n = s.unicode_len();
    proof {
        assert(s@.subrange(0, s@.len() as int) =~= s@);
        if exists|m: nat| #[trigger] decimal(m) == t@ {
            let m = choose|m: nat| #[trigger] decimal(m) == t@;
            lemma_decimal(m);
        }
    }
    let (v, e) = match read_digits(s, 0) {
        Some(x) => x,
        None => return None,
    };
    if e != n || v > usize::MAX as u64 {
        return None;
    }
    let mut out = String::new();
    push_decimal(&mut out, v);
    if out == *t {
        proof {
            let m = choose|m: nat| #[trigger] decimal(m) == t@;
            lemma_decimal_injective(m, v as nat);
        }
        Some(v as usize)
    } else {
        None
    }
}

/// Reads a decimal integer, with an optional leading `-`, that fits an
/// `i32`; exactly the texts `int_text(i)` of such `i` are accepted.
pub fn parse_uid(t: &String) -> (r: Option<i32>)
    ensures
        r == (match int_of(t@) {
            Some(i) => if i32::MIN <= i <= i32::MAX {
                Some(i as i32)
            } else {
                None
            },
            None => None,
        }),
{
    let s = t.as_str();
    let n = s.unicode_len();
    let ghost has = exists|i: int| #[trigger] int_text(i) == t@;
    let ghost target = choose|i: int| #[trigger] int_text(i) == t@;
    let ghost mag: nat = (if target < 0 { -target } else { target }) as nat;
    proof {
        if has {
            lemma_decimal(mag);
            if target < 0 {
                assert(t@.subrange(1, t@.len() as int) =~= decimal(mag));
            } else {
                assert(t@.subrange(0, t@.len() as int) =~= decimal(mag));
                assert(is_digit(t@[0]));
            }
        }
    }
    if n == 0 {
        return None;
    }
    let neg = s.get_char(0) == '-';
    let start: usize = if neg { 1 } else { 0 };
    let (v, e) = match read_digits(s, start) {
        Some(x) => x,
        None => return None,
    };
    if e != n {
        return None;
    }
    let value: i64 = if neg {
        if v > 2147483648 {
            return None;
        }
        0 - (v as i64)
    } else {
        if v > 2147483647 {
            return None;
        }
        v as i64
    };
    let i = value as i32;
    let mut out = String::new();
    push_int(&mut out, i);
    if out == *t {
        proof {
            lemma_int_text_injective(target, i as int);
        }
        Some(i)
    } else {
        None
    }
}

/// The quoted name of `role`.
fn quoted_name(role: Role) -> (r: &'static str)
    ensures
        r@ == quoted(role_name(role)),
{
    match role {
        Role::NoRole => {
            proof {
                reveal_strlit("\"None\"");
                reveal_strlit("None");
                assert("\"None\""@ =~= quoted("None"@));
            }
            "\"None\""
        },
        Role::ReadAll => {
            proof {
                reveal_strlit("\"ReadAll\"");
                reveal_strlit("ReadAll");
                assert("\"ReadAll\""@ =~= quoted("ReadAll"@));
            }
            "\"ReadAll\""
        },
        Role::WriteAll => {
            proof {
                reveal_strlit("\"WriteAll\"");
                reveal_strlit("WriteAll");
                assert("\"WriteAll\""@ =~= quoted("WriteAll"@));
            }
            "\"WriteAll\""
        },
        Role::Admin => {
            proof {
                reveal_strlit("\"Admin\"");
                reveal_strlit("Admin");
                assert("\"Admin\""@ =~= quoted("Admin"@));
            }
            "\"Admin\""
        },
    }
}

fn is_role(t: &String, role: Role) -> (r: bool)
    ensures
        r == (t@ == quoted(role_name(role))),
{
    let expected = String::from_str(quoted_name(role));
    *t == expected
}

/// Reads a role from its quoted name.
pub fn parse_role(t: &String) -> (r: Option<Role>)
    ensures
        r == role_of(t@),
{
    let found = if is_role(t, Role::NoRole) {
        Some(Role::NoRole)
    } else if is_role(t, Role::ReadAll) {
        Some(Role::ReadAll)
    } else if is_role(t, Role::WriteAll) {
        Some(Role::WriteAll)
    } else if is_role(t, Role::Admin) {
        Some(Role::Admin)
    } else {
        None
    };
    proof {
        if exists|r: Role| #[trigger] quoted(role_name(r)) == t@ {
            let c = choose|r: Role| #[trigger] quoted(role_name(r)) == t@;
            if let Some(f) = found {
                lemma_quoted_role_injective(f, c);
            }
        }
    }
    found
}

/// The claims held by an object's members.
pub fn claims_from_members(ms: &Vec<(String, String)>) -> (r: Option<Claims>)
    ensures
        r == members_claims(members_view(*ms)),
{
    let ie = match find_member(ms, "exp") {
        Some(i) => i,
        None => return None,
    };
    let iu = match find_member(ms, "uid") {
        Some(i) => i,
        None => return None,
    };
    let ir = match find_member(ms, "role") {
        Some(i) => i,
        None => return None,
    };
    let exp = match parse_exp(&ms[ie].1) {
        Some(x) => x,
        None => return None,
    };
    let uid = match parse_uid(&ms[iu].1) {
        Some(x) => x,
        None => return None,
    };
    let role = match parse_role(&ms[ir].1) {
        Some(x) => x,
        None => return None,
    };
    Some(Claims { exp, uid, role })
}

/// Reads a payload text: any JSON object whose `exp`, `uid` and `role`
/// members hold claims, in any layout.
pub fn read_payload(text: &str) -> (r: Option<Claims>)
    ensures
        r == payload_claims(text@),
        forall|c: Claims| #[trigger] claims_json(c) == text@ ==> r == Some(c),
{
    match object_members(text) {
        None => None,
        Some(ms) => {
            proof {
                assert forall|c: Claims| #[trigger] claims_json(c) == text@ implies members_claims(
                    members_view(ms),
                ) == Some(c) by {
                    lemma_members_round_trip(c);
                }
            }
            claims_from_members(&ms)
        },
    }
}

/// The members of the claims' JSON text hold exactly those claims again.
pub proof fn lemma_members_round_trip(c: Claims)
    ensures
        members_claims(claims_members(c)) == Some(c),
{
    reveal_strlit("exp");
    reveal_strlit("uid");
    reveal_strlit("role");
    let ms = claims_members(c);
    assert("exp"@ != "uid"@ && "exp"@ != "role"@ && "role"@ != "uid"@) by {
        assert("exp"@[0] != "uid"@[0]);
        assert("exp"@[0] != "role"@[0]);
        assert("role"@[0] != "uid"@[0]);
    }
    assert(first_with_key(ms, "exp"@, 0));
    assert(first_with_key(ms, "role"@, 1));
    assert(first_with_key(ms, "uid"@, 2));
    let ie = choose|i: int| first_with_key(ms, "exp"@, i);
    let ir = choose|i: int| first_with_key(ms, "role"@, i);
    let iu = choose|i: int| first_with_key(ms, "uid"@, i);
    lemma_first_unique(ms, "exp"@, 0, ie);
    lemma_first_unique(ms, "role"@, 1, ir);
    lemma_first_unique(ms, "uid"@, 2, iu);
    let n = choose|n: nat| #[trigger] decimal(n) == decimal(c.exp as nat);
    lemma_decimal_injective(n, c.exp as nat);
    let i = choose|i: int| #[trigger] int_text(i) == int_text(c.uid as int);
    lemma_int_text_injective(i, c.uid as int);
    let r = choose|r: Role| #[trigger] quoted(role_name(r)) == quoted(role_name(c.role));
    lemma_quoted_role_injective(r, c.role);
}

} // verus!
