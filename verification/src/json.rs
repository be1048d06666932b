use vstd::prelude::*;
use vstd::string::StrSliceExecFns;
use crate::numtext::{append_dec_i32, dec_str_i32, digit_char};
use crate::strutil::push_char;
use crate::user::{User, UserV};

verus! {

/// The lower-case hexadecimal digit character for `n` (0 ≤ n < 16).
pub open spec fn hex_char(n: int) -> char {
    if n < 10 {
        digit_char(n)
    } else {
        ((n + 87) as u8) as char
    }
}

/// The JSON text standing for one character inside a string literal:
/// quote, backslash and the common control characters get their short
/// escapes, the remaining control characters a `\u00..` escape, and every
/// other character stands for itself.
pub open spec fn escape_char(c: char) -> Seq<char> {
    if c == '"' {
        seq!['\\', '"']
    } else if c == '\\' {
        seq!['\\', '\\']
    } else if c == '\n' {
        seq!['\\', 'n']
    } else if c == '\r' {
        seq!['\\', 'r']
    } else if c == '\t' {
        seq!['\\', 't']
    } else if (c as u32) < 32 {
        seq!['\\', 'u', '0', '0', hex_char(c as u32 as int / 16), hex_char(c as u32 as int % 16)]
    } else {
        seq![c]
    }
}

/// The JSON text for the body of a string literal.
pub open spec fn escape_str(s: Seq<char>) -> Seq<char>
    decreases s.len(),
{
    if s.len() == 0 {
        Seq::empty()
    } else {
        escape_str(s.drop_last()) + escape_char(s.last())
    }
}

/// A JSON string literal: the escaped body between double quotes.
pub open spec fn json_string(s: Seq<char>) -> Seq<char> {
    seq!['"'] + escape_str(s) + seq!['"']
}

/// The JSON object a user is sent as. The id field is omitted when the id
/// is absent, as on a creation request that echoes its input.
pub open spec fn json_of_user(u: UserV) -> Seq<char> {
    match u.id {
        Some(id) => "{\"id\":"@ + dec_str_i32(id) + ",\"name\":"@ + json_string(u.name)
            + ",\"email\":"@ + json_string(u.email) + "}"@,
        None => "{\"name\":"@ + json_string(u.name) + ",\"email\":"@ + json_string(u.email)
            + "}"@,
    }
}

/// The body of the JSON array for a sequence of users: their objects
/// separated by commas.
pub open spec fn json_users_body(l: Seq<UserV>) -> Seq<char>
    decreases l.len(),
{
    if l.len() == 0 {
        Seq::empty()
    } else if l.len() == 1 {
        json_of_user(l[0])
    } else {
        json_users_body(l.drop_last()) + seq![','] + json_of_user(l.last())
    }
}

/// The JSON array for a sequence of users.
pub open spec fn json_of_users(l: Seq<UserV>) -> Seq<char> {
    seq!['['] + json_users_body(l) + seq![']']
}

/// Law: an empty listing is sent as the empty JSON array.
pub proof fn lemma_empty_users_json()
    ensures
        json_of_users(Seq::<UserV>::empty()) == "[]"@,
{
    reveal_strlit("[]");
    assert(json_of_users(Seq::<UserV>::empty()) =~= "[]"@);
}

/// Appends the escaped body of `t` to `s`.
fn append_escaped(s: &mut String, t: &str)
    ensures
        final(s)@ == old(s)@ + escape_str(t@),
{
    let n: usize = t.unicode_len();
    let ghost base = s@;
    let mut i: usize = 0;
    proof {
        assert(base + escape_str(t@.subrange(0, 0)) =~= base);
    }
    while i < n
        invariant
            i <= n,
            n == t@.len(),
            s@ == base + escape_str(t@.subrange(0, i as int)),
        decreases n - i,
    {
        let ghost prev = s@;
        let c = t.get_char(i);
        let v: u32 = c as u32;
        if c == '"' {
            push_char(s, '\\');
            push_char(s, '"');
        } else if c == '\\' {
            push_char(s, '\\');
            push_char(s, '\\');
        } else if c == '\n' {
            push_char(s, '\\');
            push_char(s, 'n');
        } else if c == '\r' {
            push_char(s, '\\');
            push_char(s, 'r');
        } else if c == '\t' {
            push_char(s, '\\');
            push_char(s, 't');
        } else if v < 32 {
            push_char(s, '\\');
            push_char(s, 'u');
            push_char(s, '0');
            push_char(s, '0');
            let h1: u8 = (v / 16) as u8;
            let c1: u8 = if h1 < 10 {
                h1 + 48
            } else {
                h1 + 87
            };
            push_char(s, c1 as char);
            let h2: u8 = (v % 16) as u8;
            let c2: u8 = if h2 < 10 {
                h2 + 48
            } else {
                h2 + 87
            };
            push_char(s, c2 as char);
            proof {
                assert(c1 as char == hex_char(v as int / 16));
                assert(c2 as char == hex_char(v as int % 16));
            }
        } else {
            push_char(s, c);
        }
        proof {
            assert(s@ =~= prev + escape_char(c));
            assert(t@.subrange(0, i as int + 1) =~= t@.subrange(0, i as int).push(t@[i as int]));
            assert(t@.subrange(0, i as int + 1).drop_last() =~= t@.subrange(0, i as int));
            assert(s@ =~= base + escape_str(t@.subrange(0, i as int + 1)));
        }
        i = i + 1;
    }
    proof {
        assert(t@.subrange(0, n as int) =~= t@);
    }
}

/// Appends the JSON string literal for `t` to `s`.
fn append_json_string(s: &mut String, t: &str)
    ensures
        final(s)@ == old(s)@ + json_string(t@),
{
    push_char(s, '"');
    append_escaped(s, t);
    push_char(s, '"');
    proof {
        assert(s@ =~= old(s)@ + json_string(t@));
    }
}

/// Appends the JSON object for `u` to `s`.
fn append_json_user(s: &mut String, u: &User)
    ensures
        final(s)@ == old(s)@ + json_of_user(u@),
{
    match u.id {
        Some(id) => {
            s.append("{\"id\":");
            append_dec_i32(s, id);
            s.append(",\"name\":");
            append_json_string(s, u.name.as_str());
            s.append(",\"email\":");
            append_json_string(s, u.email.as_str());
            s.append("}");
            proof {
                assert(s@ =~= old(s)@ + json_of_user(u@));
            }
        },
        None => {
            s.append("{\"name\":");
            append_json_string(s, u.name.as_str());
            s.append(",\"email\":");
            append_json_string(s, u.email.as_str());
            s.append("}");
            proof {
                assert(s@ =~= old(s)@ + json_of_user(u@));
            }
        },
    }
}

/// The JSON object text for one user.
pub fn user_to_json(u: &User) -> (r: String)
    ensures
        r@ == json_of_user(u@),
{
    let mut out = String::new();
    append_json_user(&mut out, u);
    proof {
        assert(out@ =~= json_of_user(u@));
    }
    out
}

/// The JSON array text for a listing of users, in their given order.
pub fn users_to_json(users: &Vec<User>) -> (r: String)
    ensures
        r@ == json_of_users(users@.map_values(|u: User| u@)),
{
    let ghost l = users@.map_values(|u: User| u@);
    let mut out = String::new();
    push_char(&mut out, '[');
    let mut i: usize = 0;
    proof {
        assert(out@ =~= seq!['['] + json_users_body(l.take(0)));
    }
    while i < users.len()
        invariant
            i <= users@.len(),
            l == users@.map_values(|u: User| u@),
            l.len() == users@.len(),
            out@ == seq!['['] + json_users_body(l.take(i as int)),
        decreases users@.len() - i,
    {
        let ghost prev = out@;
        if i > 0 {
            push_char(&mut out, ',');
        }
        append_json_user(&mut out, &users[i]);
        proof {
            assert(l.take(i as int + 1) =~= l.take(i as int).push(l[i as int]));
            assert(l.take(i as int + 1).drop_last() =~= l.take(i as int));
            assert(l[i as int] == users@[i as int]@);
            if i == 0 {
                assert(out@ =~= seq!['['] + json_users_body(l.take(1)));
            } else {
                assert(l.take(i as int + 1).drop_last().drop_last() =~= l.take(i as int).drop_last());
                assert(out@ =~= seq!['['] + json_users_body(l.take(i as int + 1)));
            }
        }
        i = i + 1;
    }
    push_char(&mut out, ']');
    proof {
        assert(l.take(l.len() as int) =~= l);
        assert(out@ =~= json_of_users(l));
    }
    out
}

} // verus!
