//! Rendering JSON trees as wire text.
//!
//! One pass, no spaces: objects as `{"k":v,...}`, arrays as `[v,...]`,
//! strings quoted with `"`, `\`, and the three common control characters
//! escaped. The envelope encoders at the bottom are what the transports
//! put on the wire.

use vstd::prelude::*;
use vstd::string::StringExecFns;
use crate::json::{JsonValue, JsonRep, arr_view, obj_view, lemma_arr_view_index, lemma_obj_view_index, lemma_arr_view_len, lemma_obj_view_len};
use crate::envelope::{JsonRpcRequest, JsonRpcResponse, request_rep_json, response_rep_json};

verus! {

/// The decimal digit character of one digit value.
pub open spec fn dec_digit(d: int) -> char {
    if d == 0 {
        '0'
    } else if d == 1 {
        '1'
    } else if d == 2 {
        '2'
    } else if d == 3 {
        '3'
    } else if d == 4 {
        '4'
    } else if d == 5 {
        '5'
    } else if d == 6 {
        '6'
    } else if d == 7 {
        '7'
    } else if d == 8 {
        '8'
    } else {
        '9'
    }
}

/// The decimal rendering of a nonnegative number.
pub open spec fn dec_nat(n: int) -> Seq<char>
    decreases n,
{
    if n < 10 {
        seq![dec_digit(n)]
    } else {
        dec_nat(n / 10).push(dec_digit(n % 10))
    }
}

/// The decimal rendering of an integer, sign included.
pub open spec fn dec_int(i: int) -> Seq<char> {
    if i < 0 {
        seq!['-'] + dec_nat(-i)
    } else {
        dec_nat(i)
    }
}

/// One decimal digit as text.
fn digit_str(d: u64) -> (r: &'static str)
    requires
        d < 10,
    ensures
        r@ == seq![dec_digit(d as int)],
{
    proof {
        reveal_strlit("0");
        reveal_strlit("1");
        reveal_strlit("2");
        reveal_strlit("3");
        reveal_strlit("4");
        reveal_strlit("5");
        reveal_strlit("6");
        reveal_strlit("7");
        reveal_strlit("8");
        reveal_strlit("9");
    }
    let r = if d == 0 {
        "0"
    } else if d == 1 {
        "1"
    } else if d == 2 {
        "2"
    } else if d == 3 {
        "3"
    } else if d == 4 {
        "4"
    } else if d == 5 {
        "5"
    } else if d == 6 {
        "6"
    } else if d == 7 {
        "7"
    } else if d == 8 {
        "8"
    } else {
        "9"
    };
    proof {
        assert(r@ =~= seq![dec_digit(d as int)]);
    }
    r
}

/// Appends the decimal rendering of a nonnegative number.
fn push_dec(n: u64, out: &mut String)
    ensures
        final(out)@ == old(out)@ + dec_nat(n as int),
    decreases n,
{
    if n < 10 {
        out.append(digit_str(n));
        proof {
            assert(final(out)@ =~= old(out)@ + dec_nat(n as int));
        }
    } else {
        push_dec(n / 10, out);
        out.append(digit_str(n % 10));
        proof {
            assert(final(out)@ =~= old(out)@ + dec_nat(n as int));
        }
    }
}

/// Appends the decimal rendering of an integer, sign included.
fn push_int(i: i64, out: &mut String)
    ensures
        final(out)@ == old(out)@ + dec_int(i as int),
{
    if i < 0 {
        out.append("-");
        let magnitude: u64 = ((-(i + 1)) as u64) + 1;
        proof {
            reveal_strlit("-");
            assert(magnitude as int == -(i as int));
        }
        push_dec(magnitude, out);
        proof {
            assert(final(out)@ =~= old(out)@ + dec_int(i as int));
        }
    } else {
        push_dec(i as u64, out);
    }
}

/// How one character appears inside a rendered string: the quote, the
/// backslash, and the three common control characters are escaped; every
/// other character stands as itself.
pub open spec fn spec_escape_char(c: char) -> Seq<char> {
    if c == '"' {
        seq!['\\', '"']
    } else if c == '\\' {
        seq!['\\', '\\']
    } else if c == '\n' {
        seq!['\\', 'n']
    } else if c == '\r' {
        seq!['\\', 'r']
    } else if c == '\t' {
        seq!['\\', 't']
    } else {
        seq![c]
    }
}

/// The escaped form of a whole string.
pub open spec fn spec_escaped(s: Seq<char>) -> Seq<char>
    decreases s.len(),
{
    if s.len() == 0 {
        Seq::empty()
    } else {
        spec_escaped(s.drop_last()) + spec_escape_char(s.last())
    }
}

/// Appends the escaped form of a string.
fn append_escaped(s: &str, out: &mut String)
    ensures
        final(out)@ == old(out)@ + spec_escaped(s@),
{
    let n = s.unicode_len();
    let mut i: usize = 0;
    proof {
        assert(spec_escaped(s@.take(0)) =~= Seq::<char>::empty());
        assert(out@ =~= old(out)@ + spec_escaped(s@.take(0)));
    }
    while i < n
        invariant
            n == s@.len(),
            i <= n,
            out@ == old(out)@ + spec_escaped(s@.take(i as int)),
        decreases n - i,
    {
        proof {
            assert(s@.take(i as int + 1).drop_last() =~= s@.take(i as int));
            assert(s@.take(i as int + 1).last() == s@[i as int]);
        }
        let c = s.get_char(i);
        if c == '"' {
            out.append("\\\"");
            proof {
                reveal_strlit("\\\"");
            }
        } else if c == '\\' {
            out.append("\\\\");
            proof {
                reveal_strlit("\\\\");
            }
        } else if c == '\n' {
            out.append("\\n");
            proof {
                reveal_strlit("\\n");
            }
        } else if c == '\r' {
            out.append("\\r");
            proof {
                reveal_strlit("\\r");
            }
        } else if c == '\t' {
            out.append("\\t");
            proof {
                reveal_strlit("\\t");
            }
        } else {
            let piece = s.substring_char(i, i + 1);
            out.append(piece);
        }
        proof {
            assert(out@ =~= old(out)@ + spec_escaped(s@.take(i as int + 1)));
        }
        i = i + 1;
    }
    proof {
        assert(s@.take(n as int) =~= s@);
    }
}

/// The rendered text of a JSON tree.
pub open spec fn spec_render(v: JsonRep) -> Seq<char>
    decreases v,
{
    match v {
        JsonRep::Null => "null"@,
        JsonRep::Bool(b) => if b {
            "true"@
        } else {
            "false"@
        },
        JsonRep::Int(i) => dec_int(i),
        JsonRep::Str(s) => seq!['"'] + spec_escaped(s) + seq!['"'],
        JsonRep::Arr(items) => seq!['['] + spec_render_items(items) + seq![']'],
        JsonRep::Obj(members) => seq!['{'] + spec_render_members(members) + seq!['}'],
    }
}

/// The rendered elements of an array, comma-separated.
pub open spec fn spec_render_items(items: Seq<JsonRep>) -> Seq<char>
    decreases items,
{
    if items.len() == 0 {
        Seq::empty()
    } else if items.len() == 1 {
        spec_render(items.last())
    } else {
        spec_render_items(items.drop_last()) + seq![','] + spec_render(items.last())
    }
}

/// The rendered members of an object, comma-separated, each a quoted
/// escaped name, a colon and the rendered value.
pub open spec fn spec_render_members(members: Seq<(Seq<char>, JsonRep)>) -> Seq<char>
    decreases members,
{
    if members.len() == 0 {
        Seq::empty()
    } else if members.len() == 1 {
        spec_render_member(members.last())
    } else {
        spec_render_members(members.drop_last()) + seq![','] + spec_render_member(members.last())
    }
}

/// One rendered object member.
pub open spec fn spec_render_member(m: (Seq<char>, JsonRep)) -> Seq<char>
    decreases m,
{
    seq!['"'] + spec_escaped(m.0) + seq!['"', ':'] + spec_render(m.1)
}

/// Appending one more element appends a comma first unless it is the
/// first.
proof fn lemma_render_items_push(items: Seq<JsonRep>, x: JsonRep)
    ensures
        spec_render_items(items.push(x)) == if items.len() == 0 {
            spec_render(x)
        } else {
            spec_render_items(items) + seq![','] + spec_render(x)
        },
{
    let w = items.push(x);
    assert(w.drop_last() =~= items);
    assert(w.last() == x);
}

/// Appending one more member appends a comma first unless it is the
/// first.
proof fn lemma_render_members_push(members: Seq<(Seq<char>, JsonRep)>, m: (Seq<char>, JsonRep))
    ensures
        spec_render_members(members.push(m)) == if members.len() == 0 {
            spec_render_member(m)
        } else {
            spec_render_members(members) + seq![','] + spec_render_member(m)
        },
{
    let w = members.push(m);
    assert(w.drop_last() =~= members);
    assert(w.last() == m);
}

/// Appends the rendered text of a tree.
fn render_value(v: &JsonValue, out: &mut String)
    ensures
        final(out)@ == old(out)@ + spec_render(v@),
    decreases v,
{
    match v {
        JsonValue::Null => {
            out.append("null");
        },
        JsonValue::Bool(b) => {
            if *b {
                out.append("true");
            } else {
                out.append("false");
            }
        },
        JsonValue::Int(i) => {
            push_int(*i, out);
        },
        JsonValue::Str(s) => {
            out.append("\"");
            proof {
                reveal_strlit("\"");
            }
            append_escaped(s.as_str(), out);
            out.append("\"");
            proof {
                assert(out@ =~= old(out)@ + spec_render(v@));
            }
        },
        JsonValue::Arr(items) => {
            out.append("[");
            proof {
                reveal_strlit("[");
                reveal_strlit("]");
                reveal_strlit(",");
            }
            let ghost irep = arr_view(items@);
            let ghost entry = out@;
            let mut i: usize = 0;
            proof {
                lemma_arr_view_len(items@);
                assert(spec_render_items(irep.take(0)) =~= Seq::<char>::empty());
                assert(out@ =~= entry + spec_render_items(irep.take(0)));
            }
            while i < items.len()
                invariant
                    i <= items.len(),
                    *v == JsonValue::Arr(*items),
                    irep == arr_view(items@),
                    irep.len() == items@.len(),
                    out@ == entry + spec_render_items(irep.take(i as int)),
                decreases items@.len() - i,
            {
                proof {
                    reveal_strlit(",");
                    lemma_arr_view_index(items@, i as int);
                    assert(decreases_to!(v => v->Arr_0));
                    assert(decreases_to!(v->Arr_0 => v->Arr_0@));
                    assert(decreases_to!(v->Arr_0@ => v->Arr_0@[i as int]));
                    assert(items@ == v->Arr_0@);
                }
                if i > 0 {
                    out.append(",");
                }
                render_value(&items[i], out);
                proof {
                    assert(irep.take(i as int + 1) =~= irep.take(i as int).push(irep[i as int]));
                    lemma_render_items_push(irep.take(i as int), irep[i as int]);
                    assert(out@ =~= entry + spec_render_items(irep.take(i as int + 1)));
                }
                i = i + 1;
            }
            proof {
                assert(irep.take(items@.len() as int) =~= irep);
            }
            out.append("]");
            proof {
                assert(out@ =~= old(out)@ + spec_render(v@));
            }
        },
        JsonValue::Obj(members) => {
            out.append("{");
            proof {
                reveal_strlit("{");
                reveal_strlit("}");
                reveal_strlit(",");
                reveal_strlit("\"");
                reveal_strlit("\":");
            }
            let ghost mrep = obj_view(members@);
            let ghost entry = out@;
            let mut i: usize = 0;
            proof {
                lemma_obj_view_len(members@);
                assert(spec_render_members(mrep.take(0)) =~= Seq::<char>::empty());
                assert(out@ =~= entry + spec_render_members(mrep.take(0)));
            }
            while i < members.len()
                invariant
                    i <= members.len(),
                    *v == JsonValue::Obj(*members),
                    mrep == obj_view(members@),
                    mrep.len() == members@.len(),
                    out@ == entry + spec_render_members(mrep.take(i as int)),
                decreases members@.len() - i,
            {
                proof {
                    reveal_strlit(",");
                    reveal_strlit("\"");
                    reveal_strlit("\":");
                    lemma_obj_view_index(members@, i as int);
                    assert(decreases_to!(v => v->Obj_0));
                    assert(decreases_to!(v->Obj_0 => v->Obj_0@));
                    assert(decreases_to!(v->Obj_0@ => v->Obj_0@[i as int]));
                    assert(decreases_to!(v->Obj_0@[i as int] => v->Obj_0@[i as int].1));
                    assert(members@ == v->Obj_0@);
                }
                if i > 0 {
                    out.append(",");
                }
                out.append("\"");
                append_escaped(members[i].0.as_str(), out);
                out.append("\":");
                render_value(&members[i].1, out);
                proof {
                    assert(mrep.take(i as int + 1) =~= mrep.take(i as int).push(mrep[i as int]));
                    lemma_render_members_push(mrep.take(i as int), mrep[i as int]);
                    assert(out@ =~= entry + spec_render_members(mrep.take(i as int + 1)));
                }
                i = i + 1;
            }
            proof {
                assert(mrep.take(members@.len() as int) =~= mrep);
            }
            out.append("}");
            proof {
                assert(out@ =~= old(out)@ + spec_render(v@));
            }
        },
    }
}

/// Renders a JSON tree as wire text.
pub fn render_json(v: &JsonValue) -> (r: String)
    ensures
        r@ == spec_render(v@),
{
    let mut out = String::new();
    render_value(v, &mut out);
    proof {
        assert(out@ =~= spec_render(v@));
    }
    out
}

/// Encodes a request envelope as one line of wire text; its `params` is
/// always present, the empty object standing in for absent params.
pub fn encode_request(req: &JsonRpcRequest) -> (r: String)
    ensures
        r@ == spec_render(request_rep_json(req@)),
{
    let tree = crate::envelope::request_to_json(req);
    render_json(&tree)
}

/// Encodes a response envelope as one line of wire text.
pub fn encode_response(resp: &JsonRpcResponse) -> (r: String)
    ensures
        r@ == spec_render(response_rep_json(resp@)),
{
    let tree = crate::envelope::response_to_json(resp);
    render_json(&tree)
}

} // verus!
