//! Display coercion of values to text, used by string concatenation and by
//! hosts when printing results and errors.
//!
//! Arrays and objects display their contents recursively; the walk carries
//! the same fuel bound as structural equality, and running out is reported.

use vstd::prelude::*;
use vstd::string::StringExecFns;
use crate::value::{Heap, Value, value_wf, object_wf, heap_wf};

verus! {

/// The decimal digit `d`, for `0 <= d <= 9`.
pub open spec fn digit_char(d: int) -> char {
    if d == 0 {
        '0'
    } else if d == 1 {
        '1'
    } else if d == 2 {
        '2'
    } else if d == 3 {
        '3'
    } else if d == 4 {
        '4'
    } else if d == 5 {
        '5'
    } else if d == 6 {
        '6'
    } else if d == 7 {
        '7'
    } else if d == 8 {
        '8'
    } else {
        '9'
    }
}

/// Decimal digits of a non-negative integer, most significant first.
pub open spec fn dec_str(n: int) -> Seq<char>
    decreases n,
{
    if n < 10 {
        seq![digit_char(n)]
    } else {
        dec_str(n / 10).push(digit_char(n % 10))
    }
}

/// Decimal text of an integer, with a leading minus sign when negative.
pub open spec fn int_str(n: int) -> Seq<char> {
    if n < 0 {
        seq!['-'] + dec_str(-n)
    } else {
        dec_str(n)
    }
}

/// The display text of a value; `None` means the walk ran out of fuel.
///
/// Numbers show in decimal, booleans as `true`/`false`, `Nil` as `nil`,
/// `Undefined` as `undefined`, strings as themselves, functions and
/// iterators as fixed markers; arrays as `[a,b]` and objects as
/// `{k: v,k2: v2}` over their contents in insertion order.
pub open spec fn disp_val(h: Heap, v: Value, fuel: nat) -> Option<Seq<char>>
    decreases fuel, 0int, 0int,
{
    match v {
        Value::Nil => Some("nil"@),
        Value::Undefined => Some("undefined"@),
        Value::Bool(b) => Some(if b {
            "true"@
        } else {
            "false"@
        }),
        Value::Number(n) => Some(int_str(n as int)),
        Value::Str(s) => Some(s@),
        Value::Function(_) => Some("<function>"@),
        Value::Iter(_) => Some("<iterator>"@),
        Value::Array(x) => if fuel == 0 {
            None
        } else {
            match disp_elems(h, h.arrays@[x as int]@, 0, (fuel - 1) as nat) {
                None => None,
                Some(inner) => Some("["@ + inner + "]"@),
            }
        },
        Value::Object(x) => if fuel == 0 {
            None
        } else {
            match disp_entries(h, h.objects@[x as int].table@, 0, (fuel - 1) as nat) {
                None => None,
                Some(inner) => Some("{"@ + inner + "}"@),
            }
        },
    }
}

/// The display text of the elements of `s` from index `i` on, separated by
/// commas.
pub open spec fn disp_elems(h: Heap, s: Seq<Value>, i: int, fuel: nat) -> Option<Seq<char>>
    decreases fuel, 1int, s.len() - i,
{
    if i < 0 || i >= s.len() {
        Some(Seq::empty())
    } else {
        match disp_val(h, s[i], fuel) {
            None => None,
            Some(d) => match disp_elems(h, s, i + 1, fuel) {
                None => None,
                Some(rest) => Some(
                    d + (if i + 1 == s.len() {
                        Seq::<char>::empty()
                    } else {
                        ","@
                    }) + rest,
                ),
            },
        }
    }
}

/// The display text of the entries of `t` from index `i` on, each as
/// `key: value`, separated by commas.
pub open spec fn disp_entries(h: Heap, t: Seq<(Value, Value)>, i: int, fuel: nat) -> Option<
    Seq<char>,
>
    decreases fuel, 1int, t.len() - i,
{
    if i < 0 || i >= t.len() {
        Some(Seq::empty())
    } else {
        match disp_val(h, t[i].0, fuel) {
            None => None,
            Some(dk) => match disp_val(h, t[i].1, fuel) {
                None => None,
                Some(dv) => match disp_entries(h, t, i + 1, fuel) {
                    None => None,
                    Some(rest) => Some(
                        dk + ": "@ + dv + (if i + 1 == t.len() {
                            Seq::<char>::empty()
                        } else {
                            ","@
                        }) + rest,
                    ),
                },
            },
        }
    }
}

/// Appends the decimal digit `d`.
fn append_digit(d: u64, out: &mut String)
    requires
        d <= 9,
    ensures
        final(out)@ == old(out)@ + seq![digit_char(d as int)],
{
    proof {
        reveal_strlit("0");
        reveal_strlit("1");
        reveal_strlit("2");
        reveal_strlit("3");
        reveal_strlit("4");
        reveal_strlit("5");
        reveal_strlit("6");
        reveal_strlit("7");
        reveal_strlit("8");
        reveal_strlit("9");
    }
    if d == 0 {
        out.append("0");
    } else if d == 1 {
        out.append("1");
    } else if d == 2 {
        out.append("2");
    } else if d == 3 {
        out.append("3");
    } else if d == 4 {
        out.append("4");
    } else if d == 5 {
        out.append("5");
    } else if d == 6 {
        out.append("6");
    } else if d == 7 {
        out.append("7");
    } else if d == 8 {
        out.append("8");
    } else {
        out.append("9");
    }
    proof {
        assert(final(out)@ =~= old(out)@ + seq![digit_char(d as int)]);
    }
}

/// Appends the decimal digits of `n`.
fn append_dec(n: u64, out: &mut String)
    ensures
        final(out)@ == old(out)@ + dec_str(n as int),
    decreases n,
{
    if n < 10 {
        append_digit(n, out);
    } else {
        append_dec(n / 10, out);
        append_digit(n % 10, out);
        proof {
            assert(final(out)@ =~= old(out)@ + dec_str(n as int));
        }
    }
}

/// The decimal text of a number.
pub fn display_i64(n: i64) -> (s: String)
    ensures
        s@ == int_str(n as int),
{
    let mut s = String::new();
    if n < 0 {
        proof {
            reveal_strlit("-");
        }
        s.append("-");
        let m: u64 = (-(n as i128)) as u64;
        append_dec(m, &mut s);
        proof {
            assert(s@ =~= int_str(n as int));
        }
    } else {
        append_dec(n as u64, &mut s);
        proof {
            assert(s@ =~= int_str(n as int));
        }
    }
    s
}

/// Appends the display text of `v`; returns false when fuel ran out, in
/// which case the buffer holds a partial rendering the caller discards.
pub fn display_value(h: &Heap, v: &Value, fuel: u64, out: &mut String) -> (ok: bool)
    requires
        heap_wf(*h),
        value_wf(*h, *v),
    ensures
        match disp_val(*h, *v, fuel as nat) {
            Some(s) => ok && final(out)@ == old(out)@ + s,
            None => !ok,
        },
    decreases fuel, 0int, 0int,
{
    match v {
        Value::Nil => {
            out.append("nil");
            true
        },
        Value::Undefined => {
            out.append("undefined");
            true
        },
        Value::Bool(b) => {
            if *b {
                out.append("true");
            } else {
                out.append("false");
            }
            true
        },
        Value::Number(n) => {
            let d = display_i64(*n);
            out.append(d.as_str());
            true
        },
        Value::Str(s) => {
            out.append(s.as_str());
            true
        },
        Value::Function(_) => {
            out.append("<function>");
            true
        },
        Value::Iter(_) => {
            out.append("<iterator>");
            true
        },
        Value::Array(x) => {
            if fuel == 0 {
                return false;
            }
            out.append("[");
            let ok = display_elems(h, *x, fuel - 1, out);
            if !ok {
                return false;
            }
            out.append("]");
            proof {
                assert(final(out)@ =~= old(out)@ + disp_val(*h, *v, fuel as nat).unwrap());
            }
            true
        },
        Value::Object(x) => {
            if fuel == 0 {
                return false;
            }
            out.append("{");
            let ok = display_entries(h, *x, fuel - 1, out);
            if !ok {
                return false;
            }
            out.append("}");
            proof {
                assert(final(out)@ =~= old(out)@ + disp_val(*h, *v, fuel as nat).unwrap());
            }
            true
        },
    }
}

/// Appends the comma-separated display of the array at `x`.
fn display_elems(h: &Heap, x: usize, fuel: u64, out: &mut String) -> (ok: bool)
    requires
        heap_wf(*h),
        x < h.arrays.len(),
    ensures
        match disp_elems(*h, h.arrays@[x as int]@, 0, fuel as nat) {
            Some(s) => ok && final(out)@ == old(out)@ + s,
            None => !ok,
        },
    decreases fuel, 1int, 0int,
{
    let ghost s = h.arrays@[x as int]@;
    let n = h.arrays[x].len();
    let mut i: usize = 0;
    while i < n
        invariant
            heap_wf(*h),
            x < h.arrays.len(),
            s == h.arrays@[x as int]@,
            i <= n,
            n == s.len(),
            match disp_elems(*h, s, i as int, fuel as nat) {
                Some(rest) => disp_elems(*h, s, 0, fuel as nat) == Some(
                    out@.skip(old(out)@.len() as int) + rest,
                ),
                None => disp_elems(*h, s, 0, fuel as nat) == None::<Seq<char>>,
            },
            out@.len() >= old(out)@.len(),
            out@.subrange(0, old(out)@.len() as int) == old(out)@,
        decreases n - i,
    {
        assert(crate::equality::vals_wf_at(*h, x as int, i as int)) by {
            assert(crate::value::vals_wf(*h, h.arrays@[x as int]@));
        }
        let ghost out_before = out@;
        let ok = display_value(h, &h.arrays[x][i], fuel, out);
        if !ok {
            return false;
        }
        if i + 1 < n {
            proof {
                reveal_strlit(",");
            }
            out.append(",");
        }
        proof {
            let acc0 = out_before.skip(old(out)@.len() as int);
            let d = disp_val(*h, s[i as int], fuel as nat).unwrap();
            let sep: Seq<char> = if i + 1 == n {
                Seq::empty()
            } else {
                ","@
            };
            assert(out@.skip(old(out)@.len() as int) =~= acc0 + d + sep);
            match disp_elems(*h, s, i + 1, fuel as nat) {
                Some(rest) => {
                    assert(acc0 + (d + sep + rest) =~= (acc0 + d + sep) + rest);
                },
                None => {},
            }
            assert(out@.subrange(0, old(out)@.len() as int) =~= old(out)@);
        }
        i = i + 1;
    }
    proof {
        assert(out@.skip(old(out)@.len() as int) + Seq::<char>::empty() =~= out@.skip(
            old(out)@.len() as int,
        ));
        assert(old(out)@ + out@.skip(old(out)@.len() as int) =~= out@);
    }
    true
}

/// Appends the comma-separated `key: value` display of the object at `x`.
fn display_entries(h: &Heap, x: usize, fuel: u64, out: &mut String) -> (ok: bool)
    requires
        heap_wf(*h),
        x < h.objects.len(),
    ensures
        match disp_entries(*h, h.objects@[x as int].table@, 0, fuel as nat) {
            Some(s) => ok && final(out)@ == old(out)@ + s,
            None => !ok,
        },
    decreases fuel, 1int, 0int,
{
    let ghost t = h.objects@[x as int].table@;
    let n = h.objects[x].table.len();
    let mut i: usize = 0;
    while i < n
        invariant
            heap_wf(*h),
            x < h.objects.len(),
            t == h.objects@[x as int].table@,
            i <= n,
            n == t.len(),
            match disp_entries(*h, t, i as int, fuel as nat) {
                Some(rest) => disp_entries(*h, t, 0, fuel as nat) == Some(
                    out@.skip(old(out)@.len() as int) + rest,
                ),
                None => disp_entries(*h, t, 0, fuel as nat) == None::<Seq<char>>,
            },
            out@.len() >= old(out)@.len(),
            out@.subrange(0, old(out)@.len() as int) == old(out)@,
        decreases n - i,
    {
        proof {
            assert(object_wf(*h, x as int));
            assert(crate::value::table_wf(*h, h.objects@[x as int].table@));
        }
        let ghost out_before = out@;
        let ok = display_value(h, &h.objects[x].table[i].0, fuel, out);
        if !ok {
            return false;
        }
        proof {
            reveal_strlit(": ");
        }
        out.append(": ");
        let ok2 = display_value(h, &h.objects[x].table[i].1, fuel, out);
        if !ok2 {
            proof {
                let acc0 = out_before.skip(old(out)@.len() as int);
                assert(disp_entries(*h, t, i as int, fuel as nat) == None::<Seq<char>>);
            }
            return false;
        }
        if i + 1 < n {
            proof {
                reveal_strlit(",");
            }
            out.append(",");
        }
        proof {
            let acc0 = out_before.skip(old(out)@.len() as int);
            let dk = disp_val(*h, t[i as int].0, fuel as nat).unwrap();
            let dv = disp_val(*h, t[i as int].1, fuel as nat).unwrap();
            let sep: Seq<char> = if i + 1 == n {
                Seq::empty()
            } else {
                ","@
            };
            assert(out@.skip(old(out)@.len() as int) =~= acc0 + dk + ": "@ + dv + sep);
            match disp_entries(*h, t, i + 1, fuel as nat) {
                Some(rest) => {
                    assert(acc0 + (dk + ": "@ + dv + sep + rest) =~= (acc0 + dk + ": "@ + dv + sep)
                        + rest);
                },
                None => {},
            }
            assert(out@.subrange(0, old(out)@.len() as int) =~= old(out)@);
        }
        i = i + 1;
    }
    proof {
        assert(out@.skip(old(out)@.len() as int) + Seq::<char>::empty() =~= out@.skip(
            old(out)@.len() as int,
        ));
        assert(old(out)@ + out@.skip(old(out)@.len() as int) =~= out@);
    }
    true
}

/// The full display text of a value, or `None` when the recursive walk ran
/// out of fuel.
pub fn display_string(h: &Heap, v: &Value, fuel: u64) -> (r: Option<String>)
    requires
        heap_wf(*h),
        value_wf(*h, *v),
    ensures
        match disp_val(*h, *v, fuel as nat) {
            Some(s) => match r {
                Some(out) => out@ == s,
                None => false,
            },
            None => r is None,
        },
{
    let mut out = String::new();
    let ok = display_value(h, v, fuel, &mut out);
    if ok {
        proof {
            assert(Seq::<char>::empty() + disp_val(*h, *v, fuel as nat).unwrap() =~= disp_val(
                *h,
                *v,
                fuel as nat,
            ).unwrap());
        }
        Some(out)
    } else {
        None
    }
}

} // verus!
