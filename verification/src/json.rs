//! JSON values and their rendering.
//!
//! The response envelope is serialised by the library itself; the
//! specification-level functions here say, character for character, what
//! the serialised form of a value is.

use vstd::prelude::*;

verus! {

/// A JSON value, as far as a response needs: null, a 32-bit integer, a
/// string, an array, or an object with ordered members.
pub enum Json {
    Null,
    Int(i32),
    Chars(Vec<char>),
    Arr(Vec<Json>),
    Obj(Vec<(Vec<char>, Json)>),
}

/// Mathematical value of a [`Json`].
pub ghost enum JsonV {
    Null,
    Int(int),
    Chars(Seq<char>),
    Arr(Seq<JsonV>),
    Obj(Seq<(Seq<char>, JsonV)>),
}

/// The mathematical value of a JSON value.
pub open spec fn json_view(j: Json) -> JsonV
    decreases j, 1int,
{
    match j {
        Json::Null => JsonV::Null,
        Json::Int(n) => JsonV::Int(n as int),
        Json::Chars(s) => JsonV::Chars(s@),
        Json::Arr(items) => JsonV::Arr(items_view_from(items@, 0)),
        Json::Obj(members) => JsonV::Obj(members_view_from(members@, 0)),
    }
}

/// The mathematical values of the array items at indices `i..`.
pub open spec fn items_view_from(s: Seq<Json>, i: int) -> Seq<JsonV>
    decreases s, s.len() - i, 0int,
{
    if i < 0 || i >= s.len() {
        Seq::empty()
    } else {
        seq![json_view(s[i])] + items_view_from(s, i + 1)
    }
}

/// The mathematical values of the object members at indices `i..`.
pub open spec fn members_view_from(s: Seq<(Vec<char>, Json)>, i: int) -> Seq<(Seq<char>, JsonV)>
    decreases s, s.len() - i, 0int,
{
    if i < 0 || i >= s.len() {
        Seq::empty()
    } else {
        seq![(s[i].0@, json_view(s[i].1))] + members_view_from(s, i + 1)
    }
}

/// The decimal digit character for `d`.
pub open spec fn digit_char(d: int) -> char {
    if d == 1 {
        '1'
    } else if d == 2 {
        '2'
    } else if d == 3 {
        '3'
    } else if d == 4 {
        '4'
    } else if d == 5 {
        '5'
    } else if d == 6 {
        '6'
    } else if d == 7 {
        '7'
    } else if d == 8 {
        '8'
    } else if d == 9 {
        '9'
    } else {
        '0'
    }
}

/// The lower-case hexadecimal digit character for `d`.
pub open spec fn hex_char(d: int) -> char {
    if d < 10 {
        digit_char(d)
    } else if d == 10 {
        'a'
    } else if d == 11 {
        'b'
    } else if d == 12 {
        'c'
    } else if d == 13 {
        'd'
    } else if d == 14 {
        'e'
    } else {
        'f'
    }
}

/// The decimal digits of a non-negative integer.
pub open spec fn dec_chars(n: int) -> Seq<char>
    decreases n,
{
    if n < 10 {
        seq![digit_char(n)]
    } else {
        dec_chars(n / 10).push(digit_char(n % 10))
    }
}

/// The decimal rendering of an integer, with a leading minus when negative.
pub open spec fn int_chars(n: int) -> Seq<char> {
    if n < 0 {
        seq!['-'] + dec_chars(-n)
    } else {
        dec_chars(n)
    }
}

/// The escape of one character inside a JSON string.
pub open spec fn esc_char(c: char) -> Seq<char> {
    if c == '"' {
        seq!['\\', '"']
    } else if c == '\\' {
        seq!['\\', '\\']
    } else if (c as u32) < 32 {
        seq!['\\', 'u', '0', '0', hex_char((c as int) / 16), hex_char((c as int) % 16)]
    } else {
        seq![c]
    }
}

/// The escapes of the characters at indices `i..`.
pub open spec fn escape_from(s: Seq<char>, i: int) -> Seq<char>
    decreases s.len() - i,
{
    if i < 0 || i >= s.len() {
        Seq::empty()
    } else {
        esc_char(s[i]) + escape_from(s, i + 1)
    }
}

/// A JSON string: quotes around the escaped characters.
pub open spec fn json_str(s: Seq<char>) -> Seq<char> {
    seq!['"'] + escape_from(s, 0) + seq!['"']
}

/// The serialised form of a JSON value.
pub open spec fn json_chars(j: JsonV) -> Seq<char>
    decreases j, 1int,
{
    match j {
        JsonV::Null => "null"@,
        JsonV::Int(n) => int_chars(n),
        JsonV::Chars(s) => json_str(s),
        JsonV::Arr(items) => seq!['['] + arr_chars(items, 0) + seq![']'],
        JsonV::Obj(members) => seq!['{'] + obj_chars(members, 0) + seq!['}'],
    }
}

/// The comma-separated items at indices `i..` of an array.
pub open spec fn arr_chars(items: Seq<JsonV>, i: int) -> Seq<char>
    decreases items, items.len() - i, 0int,
{
    if i < 0 || i >= items.len() {
        Seq::empty()
    } else if i + 1 < items.len() {
        json_chars(items[i]) + seq![','] + arr_chars(items, i + 1)
    } else {
        json_chars(items[i])
    }
}

/// The comma-separated members at indices `i..` of an object.
pub open spec fn obj_chars(members: Seq<(Seq<char>, JsonV)>, i: int) -> Seq<char>
    decreases members, members.len() - i, 0int,
{
    if i < 0 || i >= members.len() {
        Seq::empty()
    } else if i + 1 < members.len() {
        json_str(members[i].0) + seq![':'] + json_chars(members[i].1) + seq![','] + obj_chars(
            members,
            i + 1,
        )
    } else {
        json_str(members[i].0) + seq![':'] + json_chars(members[i].1)
    }
}

/// A viewed item sequence is as long as the sequence itself, and holds the
/// view of each item.
pub proof fn lemma_items_view(s: Seq<Json>, i: int)
    requires
        0 <= i <= s.len(),
    ensures
        items_view_from(s, i).len() == s.len() - i,
        forall|k: int| i <= k < s.len() ==> items_view_from(s, i)[k - i] == json_view(s[k]),
    decreases s.len() - i,
{
    if i < s.len() {
        lemma_items_view(s, i + 1);
    }
}

/// A viewed member sequence is as long as the sequence itself, and holds
/// the view of each member.
pub proof fn lemma_members_view(s: Seq<(Vec<char>, Json)>, i: int)
    requires
        0 <= i <= s.len(),
    ensures
        members_view_from(s, i).len() == s.len() - i,
        forall|k: int|
            i <= k < s.len() ==> members_view_from(s, i)[k - i] == (s[k].0@, json_view(s[k].1)),
    decreases s.len() - i,
{
    if i < s.len() {
        lemma_members_view(s, i + 1);
    }
}

/// The decimal digit character for `d`.
fn digit_char_x(d: u32) -> (r: char)
    requires
        d < 10,
    ensures
        r == digit_char(d as int),
{
    if d == 1 {
        '1'
    } else if d == 2 {
        '2'
    } else if d == 3 {
        '3'
    } else if d == 4 {
        '4'
    } else if d == 5 {
        '5'
    } else if d == 6 {
        '6'
    } else if d == 7 {
        '7'
    } else if d == 8 {
        '8'
    } else if d == 9 {
        '9'
    } else {
        '0'
    }
}

/// The lower-case hexadecimal digit character for `d`.
fn hex_char_x(d: u32) -> (r: char)
    requires
        d < 16,
    ensures
        r == hex_char(d as int),
{
    if d < 10 {
        digit_char_x(d)
    } else if d == 10 {
        'a'
    } else if d == 11 {
        'b'
    } else if d == 12 {
        'c'
    } else if d == 13 {
        'd'
    } else if d == 14 {
        'e'
    } else {
        'f'
    }
}

/// Append the decimal digits of a non-negative number.
fn push_dec_chars(out: &mut Vec<char>, n: u64)
    ensures
        final(out)@ == old(out)@ + dec_chars(n as int),
    decreases n,
{
    if n < 10 {
        out.push(digit_char_x(n as u32));
        proof {
            assert(final(out)@ =~= old(out)@ + dec_chars(n as int));
        }
    } else {
        push_dec_chars(out, n / 10);
        out.push(digit_char_x((n % 10) as u32));
        proof {
            assert(final(out)@ =~= old(out)@ + dec_chars(n as int));
        }
    }
}

/// Append the decimal rendering of an integer.
pub fn push_int_chars(out: &mut Vec<char>, n: i32)
    ensures
        final(out)@ == old(out)@ + int_chars(n as int),
{
    if n < 0 {
        let wide: i64 = n as i64;
        out.push('-');
        let ghost mid = out@;
        push_dec_chars(out, (-wide) as u64);
        proof {
            assert(mid =~= old(out)@ + seq!['-']);
            assert(final(out)@ =~= old(out)@ + (seq!['-'] + dec_chars(-(n as int))));
        }
    } else {
        push_dec_chars(out, n as u64);
    }
}

/// Append the escape of one character.
fn push_esc_char(out: &mut Vec<char>, c: char)
    ensures
        final(out)@ == old(out)@ + esc_char(c),
{
    if c == '"' {
        out.push('\\');
        out.push('"');
        proof {
            assert(final(out)@ =~= old(out)@ + esc_char(c));
        }
    } else if c == '\\' {
        out.push('\\');
        out.push('\\');
        proof {
            assert(final(out)@ =~= old(out)@ + esc_char(c));
        }
    } else {
        let u = c as u32;
        if u < 32 {
            out.push('\\');
            out.push('u');
            out.push('0');
            out.push('0');
            out.push(hex_char_x(u / 16));
            out.push(hex_char_x(u % 16));
            proof {
                assert(final(out)@ =~= old(out)@ + esc_char(c));
            }
        } else {
            out.push(c);
            proof {
                assert(final(out)@ =~= old(out)@ + esc_char(c));
            }
        }
    }
}

/// Append a JSON string: quotes around the escaped characters.
pub fn push_json_str(out: &mut Vec<char>, s: &Vec<char>)
    ensures
        final(out)@ == old(out)@ + json_str(s@),
{
    out.push('"');
    let n = s.len();
    let mut i: usize = 0;
    while i < n
        invariant
            n == s@.len(),
            i <= n,
            out@ + escape_from(s@, i as int) == old(out)@ + seq!['"'] + escape_from(s@, 0),
        decreases n - i,
    {
        let ghost before = out@;
        push_esc_char(out, s[i]);
        proof {
            assert(escape_from(s@, i as int) == esc_char(s@[i as int]) + escape_from(
                s@,
                i + 1 as int,
            ));
            assert(out@ + escape_from(s@, i + 1 as int) =~= before + escape_from(s@, i as int));
        }
        i = i + 1;
    }
    out.push('"');
    proof {
        assert(escape_from(s@, n as int) =~= Seq::<char>::empty());
        assert(final(out)@ =~= old(out)@ + json_str(s@));
    }
}

/// Append the serialised form of a JSON value.
pub fn push_json(out: &mut Vec<char>, j: &Json)
    ensures
        final(out)@ == old(out)@ + json_chars(json_view(*j)),
    decreases *j, 1int,
{
    match j {
        Json::Null => {
            crate::text::append_str(out, "null");
        },
        Json::Int(n) => {
            push_int_chars(out, *n);
        },
        Json::Chars(s) => {
            push_json_str(out, s);
        },
        Json::Arr(items) => {
            let ghost iv = items_view_from(items@, 0);
            proof {
                lemma_items_view(items@, 0);
            }
            out.push('[');
            let n = items.len();
            let mut i: usize = 0;
            while i < n
                invariant
                    *j == Json::Arr(*items),
                    n == items@.len(),
                    i <= n,
                    iv == items_view_from(items@, 0),
                    iv.len() == n,
                    forall|k: int| 0 <= k < n ==> iv[k] == json_view(items@[k]),
                    out@ + arr_chars(iv, i as int) == old(out)@ + seq!['['] + arr_chars(iv, 0),
                decreases n - i,
            {
                let ghost before = out@;
                proof {
                    assert(decreases_to!(*j => (*j)->Arr_0));
                    assert((*j)->Arr_0 == *items);
                    assert(decreases_to!(*items => (*items)[i as int]));
                }
                push_json(out, &items[i]);
                if i + 1 < n {
                    out.push(',');
                    proof {
                        assert(out@ + arr_chars(iv, i + 1 as int) =~= before + arr_chars(
                            iv,
                            i as int,
                        ));
                    }
                } else {
                    proof {
                        assert(out@ + arr_chars(iv, i + 1 as int) =~= before + arr_chars(
                            iv,
                            i as int,
                        ));
                    }
                }
                i = i + 1;
            }
            out.push(']');
            proof {
                assert(arr_chars(iv, n as int) =~= Seq::<char>::empty());
                assert(final(out)@ =~= old(out)@ + json_chars(json_view(*j)));
            }
        },
        Json::Obj(members) => {
            let ghost mv = members_view_from(members@, 0);
            proof {
                lemma_members_view(members@, 0);
            }
            out.push('{');
            let n = members.len();
            let mut i: usize = 0;
            while i < n
                invariant
                    *j == Json::Obj(*members),
                    n == members@.len(),
                    i <= n,
                    mv == members_view_from(members@, 0),
                    mv.len() == n,
                    forall|k: int|
                        0 <= k < n ==> mv[k] == (members@[k].0@, json_view(members@[k].1)),
                    out@ + obj_chars(mv, i as int) == old(out)@ + seq!['{'] + obj_chars(mv, 0),
                decreases n - i,
            {
                let ghost before = out@;
                push_json_str(out, &members[i].0);
                out.push(':');
                proof {
                    assert(decreases_to!(*j => (*j)->Obj_0));
                    assert((*j)->Obj_0 == *members);
                    assert(decreases_to!(*members => (*members)[i as int]));
                    assert(decreases_to!((*members)[i as int] => (*members)[i as int].1));
                }
                push_json(out, &members[i].1);
                if i + 1 < n {
                    out.push(',');
                    proof {
                        assert(out@ + obj_chars(mv, i + 1 as int) =~= before + obj_chars(
                            mv,
                            i as int,
                        ));
                    }
                } else {
                    proof {
                        assert(out@ + obj_chars(mv, i + 1 as int) =~= before + obj_chars(
                            mv,
                            i as int,
                        ));
                    }
                }
                i = i + 1;
            }
            out.push('}');
            proof {
                assert(obj_chars(mv, n as int) =~= Seq::<char>::empty());
                assert(final(out)@ =~= old(out)@ + json_chars(json_view(*j)));
            }
        },
    }
}

} // verus!
