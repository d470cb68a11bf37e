use vstd::prelude::*;
use crate::models::{User, UserModel};

verus! {

/// The JSON string literal that `serde_json` writes for a text.
pub uninterp spec fn json_quoted(s: Seq<char>) -> Seq<char>;

/// Relies on `serde_json::to_string` on a `str`: it writes the quoted and
/// escaped JSON string, a function of the text alone. Serialising a `str`
/// into memory cannot fail.
#[verifier::external_body]
fn quote(s: &str) -> (r: String)
    ensures
        r@ == json_quoted(s@),
{
    match serde_json::to_string(s) {
        Ok(t) => t,
        Err(_) => String::new(),
    }
}

pub open spec fn decimal_digits() -> Seq<char> {
    "0123456789"@
}

/// The decimal digits of a natural number, without leading zeros.
pub open spec fn decimal(n: nat) -> Seq<char>
    decreases n,
{
    if n < 10 {
        decimal_digits().subrange(n as int, n + 1 as int)
    } else {
        decimal((n / 10) as nat) + decimal_digits().subrange((n % 10) as int, (n % 10) + 1 as int)
    }
}

/// The decimal text of an integer, with a leading `-` when negative.
pub open spec fn int_text(i: int) -> Seq<char> {
    if i < 0 {
        "-"@ + decimal((-i) as nat)
    } else {
        decimal(i as nat)
    }
}

/// The JSON text of a user record: an object with `id`, `name` and `email`
/// in that order, `id` being `null` when absent.
pub open spec fn user_json(u: UserModel) -> Seq<char> {
    "{\"id\":"@ + match u.id {
        Some(i) => int_text(i as int),
        None => "null"@,
    } + ",\"name\":"@ + json_quoted(u.name) + ",\"email\":"@ + json_quoted(u.email) + "}"@
}

/// The JSON texts of a sequence of records, separated by commas.
pub open spec fn users_json_items(us: Seq<UserModel>) -> Seq<char>
    decreases us.len(),
{
    if us.len() == 0 {
        Seq::empty()
    } else if us.len() == 1 {
        user_json(us[0])
    } else {
        users_json_items(us.drop_last()) + ","@ + user_json(us.last())
    }
}

/// The JSON array of a sequence of records.
pub open spec fn users_json(us: Seq<UserModel>) -> Seq<char> {
    "["@ + users_json_items(us) + "]"@
}

fn push_decimal(out: &mut String, n: u32)
    ensures
        final(out)@ == old(out)@ + decimal(n as nat),
    decreases n,
{
    if n >= 10 {
        push_decimal(out, n / 10);
    }
    let d = (n % 10) as usize;
    proof {
        reveal_strlit("0123456789");
    }
    let digit = "0123456789".substring_char(d, d + 1);
    out.append(digit);
    assert(final(out)@ =~= old(out)@ + decimal(n as nat));
}

/// Appends the decimal text of an integer.
pub fn push_int(out: &mut String, i: i32)
    ensures
        final(out)@ == old(out)@ + int_text(i as int),
{
    if i < 0 {
        out.append("-");
        let m: u32 = (0 - (i as i64)) as u32;
        push_decimal(out, m);
        assert(final(out)@ =~= old(out)@ + int_text(i as int));
    } else {
        push_decimal(out, i as u32);
    }
}

/// Appends the JSON text of a user record.
pub fn push_user_json(out: &mut String, u: &User)
    ensures
        final(out)@ == old(out)@ + user_json(u@),
{
    out.append("{\"id\":");
    match u.id {
        Some(i) => push_int(out, i),
        None => out.append("null"),
    }
    out.append(",\"name\":");
    let name = quote(u.name.as_str());
    out.append(name.as_str());
    out.append(",\"email\":");
    let email = quote(u.email.as_str());
    out.append(email.as_str());
    out.append("}");
    assert(final(out)@ =~= old(out)@ + user_json(u@));
}

/// The JSON text of a user record.
pub fn to_json(u: &User) -> (r: String)
    ensures
        r@ == user_json(u@),
{
    let mut out = String::new();
    push_user_json(&mut out, u);
    assert(out@ =~= user_json(u@));
    out
}

pub open spec fn models(us: Seq<User>) -> Seq<UserModel> {
    us.map_values(|u: User| u@)
}

/// The JSON array of a list of user records.
pub fn to_json_array(us: &Vec<User>) -> (r: String)
    ensures
        r@ == users_json(models(us@)),
{
    let mut out = String::from_str("[");
    let mut i: usize = 0;
    while i < us.len()
        invariant
            i <= us@.len(),
            out@ == "["@ + users_json_items(models(us@.subrange(0, i as int))),
        decreases us@.len() - i,
    {
        let ghost before = models(us@.subrange(0, i as int));
        let ghost after = models(us@.subrange(0, i + 1));
        assert(after.drop_last() =~= before);
        assert(after.last() == us@[i as int]@);
        if i > 0 {
            out.append(",");
        }
        push_user_json(&mut out, &us[i]);
        proof {
            if i == 0 {
                assert(after.len() == 1);
                assert(users_json_items(before) =~= Seq::<char>::empty());
            }
        }
        assert(out@ =~= "["@ + users_json_items(after));
        i = i + 1;
    }
    assert(us@.subrange(0, i as int) =~= us@);
    out.append("]");
    out
}

} // verus!
