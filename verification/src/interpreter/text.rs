//! Text helpers of the engine: spelling numbers, reading numbers, trimming
//! whitespace, and rendering values as text.

use vstd::prelude::*;
use vstd::string::StringExecFns;
use vstd::string::StrSliceExecFns;

use crate::interpreter::ControlFlow;
use crate::interpreter::Data;
use crate::interpreter::DataView;
use crate::interpreter::Error;
use crate::interpreter::cells_view;
use crate::interpreter::cells_wf;
use crate::interpreter::data_wf;

verus! {

/// The four whitespace characters that `trim` strips.
pub open spec fn is_space(c: char) -> bool {
    c == ' ' || c == '\t' || c == '\n' || c == '\r'
}

/// A decimal digit.
pub open spec fn is_digit(c: char) -> bool {
    48 <= (c as u32) && (c as u32) <= 57
}

/// The numeric value of a decimal digit character.
pub open spec fn digit_val(c: char) -> int {
    (c as u32) - 48
}

/// The character spelling one decimal digit.
pub open spec fn digit_char(d: int) -> char {
    if d == 0 { '0' }
    else if d == 1 { '1' }
    else if d == 2 { '2' }
    else if d == 3 { '3' }
    else if d == 4 { '4' }
    else if d == 5 { '5' }
    else if d == 6 { '6' }
    else if d == 7 { '7' }
    else if d == 8 { '8' }
    else { '9' }
}

/// The decimal spelling of a natural number.
pub open spec fn nat_chars(n: nat) -> Seq<char>
    decreases n,
{
    if n < 10 {
        seq![digit_char(n as int)]
    } else {
        nat_chars(n / 10).push(digit_char((n % 10) as int))
    }
}

/// The decimal spelling of an integer: a minus sign and the magnitude.
pub open spec fn int_chars(n: int) -> Seq<char> {
    if n < 0 {
        seq!['-'] + nat_chars((-n) as nat)
    } else {
        nat_chars(n as nat)
    }
}

/// Reads a digit sequence into a non-positive accumulator (so that the
/// magnitude of `i64::MIN` is representable along the way): `None` where a
/// character is no digit or the value falls below `i64::MIN`.
pub open spec fn parse_digits(s: Seq<char>) -> Option<int>
    decreases s.len(),
{
    if s.len() == 0 {
        Some(0)
    } else {
        match parse_digits(s.drop_last()) {
            None => None,
            Some(a) => if !is_digit(s.last()) {
                None
            } else {
                let v = a * 10 - digit_val(s.last());
                if v < i64::MIN { None } else { Some(v) }
            },
        }
    }
}

/// Reads an optionally minus-signed decimal integer; `None` where the text
/// is empty, holds a character that is no digit, or does not fit an `i64`.
pub open spec fn parse_num(s: Seq<char>) -> Option<i64> {
    let neg = s.len() > 0 && s[0] == '-';
    let ds = if neg { s.drop_first() } else { s };
    if ds.len() == 0 {
        None
    } else {
        match parse_digits(ds) {
            None => None,
            Some(v) => if neg {
                Some(v as i64)
            } else {
                if -v > i64::MAX { None } else { Some((-v) as i64) }
            },
        }
    }
}

/// The index of the first character that is not whitespace, or the length.
pub open spec fn first_non_space(s: Seq<char>, i: int) -> int
    decreases s.len() - i,
{
    if i < 0 || i >= s.len() {
        s.len() as int
    } else if is_space(s[i]) {
        first_non_space(s, i + 1)
    } else {
        i
    }
}

/// One past the index of the last character at or before `i` that is not
/// whitespace, or zero.
pub open spec fn end_non_space(s: Seq<char>, i: int) -> int
    decreases i,
{
    if i <= 0 || i > s.len() {
        0
    } else if is_space(s[i - 1]) {
        end_non_space(s, i - 1)
    } else {
        i
    }
}

/// The text with leading and trailing whitespace removed.
pub open spec fn trim_view(s: Seq<char>) -> Seq<char> {
    let a = first_non_space(s, 0);
    if a == s.len() {
        Seq::empty()
    } else {
        s.subrange(a, end_non_space(s, s.len() as int))
    }
}

/// The one-character text spelling a digit.
fn digit_str(d: u64) -> (r: &'static str)
    requires
        d < 10,
    ensures
        r@ =~= seq![digit_char(d as int)],
{
    proof {
        reveal_strlit("0");
        reveal_strlit("1");
        reveal_strlit("2");
        reveal_strlit("3");
        reveal_strlit("4");
        reveal_strlit("5");
        reveal_strlit("6");
        reveal_strlit("7");
        reveal_strlit("8");
        reveal_strlit("9");
    }
    if d == 0 { "0" }
    else if d == 1 { "1" }
    else if d == 2 { "2" }
    else if d == 3 { "3" }
    else if d == 4 { "4" }
    else if d == 5 { "5" }
    else if d == 6 { "6" }
    else if d == 7 { "7" }
    else if d == 8 { "8" }
    else { "9" }
}

/// Appends the decimal spelling of `m` to `out`.
fn push_digits(out: &mut String, m: u64)
    ensures
        final(out)@ == old(out)@ + nat_chars(m as nat),
    decreases m,
{
    if m < 10 {
        out.append(digit_str(m));
    } else {
        push_digits(out, m / 10);
        out.append(digit_str(m % 10));
    }
}

/// Spells a number in decimal.
pub fn num_to_string(n: i64) -> (s: String)
    ensures
        s@ == int_chars(n as int),
{
    let mut s = String::new();
    if n >= 0 {
        push_digits(&mut s, n as u64);
    } else {
        proof {
            reveal_strlit("-");
        }
        s.append("-");
        let m: u64 = (-(n as i128)) as u64;
        push_digits(&mut s, m);
        proof {
            assert(s@ =~= seq!['-'] + nat_chars(m as nat));
        }
    }
    s
}

/// Reads an optionally minus-signed decimal integer; fails where the text is
/// empty, holds a character that is no digit, or does not fit a number.
pub fn parse_number(s: &String) -> (r: Result<i64, Error>)
    ensures
        r == match parse_num(s@) {
            Some(v) => Ok::<i64, Error>(v),
            None => Err::<i64, Error>(Error::InvalidNumber),
        },
{
    let text = s.as_str();
    let n = text.unicode_len();
    let neg = n > 0 && text.get_char(0) == '-';
    let start: usize = if neg { 1 } else { 0 };
    let ghost ds = if neg { s@.drop_first() } else { s@ };
    proof {
        assert(ds =~= s@.subrange(start as int, n as int));
    }
    if n == start {
        return Err(Error::InvalidNumber);
    }
    let mut acc: i64 = 0;
    let mut i: usize = start;
    while i < n
        invariant
            start <= i <= n,
            start < n,
            n == s@.len(),
            text@ == s@,
            neg == (s@.len() > 0 && s@[0] == '-'),
            start == if neg { 1int } else { 0int },
            ds == if neg { s@.drop_first() } else { s@ },
            ds == s@.subrange(start as int, n as int),
            parse_digits(ds.subrange(0, (i - start) as int)) == Some(acc as int),
            acc <= 0,
        decreases n - i,
    {
        let c = text.get_char(i);
        proof {
            assert(ds[(i - start) as int] == c);
        }
        let u = c as u32;
        if !(48 <= u && u <= 57) {
            proof {
                lemma_parse_digits_extend_bad(ds, (i - start) as int);
            }
            return Err(Error::InvalidNumber);
        }
        let d = (u - 48) as i64;
        let next: i128 = (acc as i128) * 10 - (d as i128);
        if next < (i64::MIN as i128) {
            proof {
                lemma_parse_digits_extend_over(ds, (i - start) as int, acc as int, d as int);
            }
            return Err(Error::InvalidNumber);
        }
        proof {
            assert(ds.subrange(0, (i - start) as int + 1).drop_last()
                =~= ds.subrange(0, (i - start) as int));
        }
        acc = next as i64;
        i = i + 1;
    }
    proof {
        assert(ds.subrange(0, (n - start) as int) =~= ds);
    }
    if neg {
        Ok(acc)
    } else {
        if acc == i64::MIN {
            return Err(Error::InvalidNumber);
        }
        Ok(-acc)
    }
}

/// A prefix that fails to parse dooms the whole digit string.
proof fn lemma_parse_digits_prefix_none(s: Seq<char>, k: int)
    requires
        0 <= k <= s.len(),
        parse_digits(s.subrange(0, k)) is None,
    ensures
        parse_digits(s) is None,
    decreases s.len() - k,
{
    if k < s.len() {
        assert(s.subrange(0, k + 1).drop_last() =~= s.subrange(0, k));
        lemma_parse_digits_prefix_none(s, k + 1);
    } else {
        assert(s.subrange(0, k) =~= s);
    }
}

/// A non-digit at position `k` makes the whole digit string unreadable.
proof fn lemma_parse_digits_extend_bad(s: Seq<char>, k: int)
    requires
        0 <= k < s.len(),
        !is_digit(s[k]),
    ensures
        parse_digits(s) is None,
{
    assert(s.subrange(0, k + 1).drop_last() =~= s.subrange(0, k));
    assert(parse_digits(s.subrange(0, k + 1)) is None);
    lemma_parse_digits_prefix_none(s, k + 1);
}

/// Once the accumulator would fall below `i64::MIN`, the whole digit string
/// is out of range.
proof fn lemma_parse_digits_extend_over(s: Seq<char>, k: int, a: int, d: int)
    requires
        0 <= k < s.len(),
        parse_digits(s.subrange(0, k)) == Some(a),
        is_digit(s[k]),
        d == digit_val(s[k]),
        a * 10 - d < i64::MIN,
    ensures
        parse_digits(s) is None,
{
    assert(s.subrange(0, k + 1).drop_last() =~= s.subrange(0, k));
    assert(parse_digits(s.subrange(0, k + 1)) is None);
    lemma_parse_digits_prefix_none(s, k + 1);
}

/// Removes leading and trailing whitespace.
pub fn trim_string(s: &String) -> (r: String)
    ensures
        r@ == trim_view(s@),
{
    let text = s.as_str();
    let n = text.unicode_len();
    let mut a: usize = 0;
    while a < n && is_space_exec(text.get_char(a))
        invariant
            0 <= a <= n,
            n == s@.len(),
            text@ == s@,
            first_non_space(s@, 0) == first_non_space(s@, a as int),
        decreases n - a,
    {
        a = a + 1;
    }
    if a == n {
        proof {
            assert(first_non_space(s@, a as int) == s@.len());
        }
        return String::new();
    }
    proof {
        assert(first_non_space(s@, a as int) == a as int);
    }
    let mut b: usize = n;
    while b > a && is_space_exec(text.get_char(b - 1))
        invariant
            a < b <= n,
            n == s@.len(),
            text@ == s@,
            a < n,
            !is_space(s@[a as int]),
            end_non_space(s@, n as int) == end_non_space(s@, b as int),
        decreases b,
    {
        proof {
            assert(b - 1 > a || !is_space(s@[(b - 1) as int]));
        }
        b = b - 1;
    }
    proof {
        assert(!is_space(s@[(b - 1) as int]));
        assert(end_non_space(s@, b as int) == b as int);
    }
    let r = text.substring_char(a, b);
    proof {
        assert(r@ =~= trim_view(s@));
    }
    r.to_owned()
}

/// Whether a character is whitespace.
fn is_space_exec(c: char) -> (r: bool)
    ensures
        r == is_space(c),
{
    c == ' ' || c == '\t' || c == '\n' || c == '\r'
}

/// The spelling of a boolean.
pub open spec fn bool_chars(b: bool) -> Seq<char> {
    if b { "true"@ } else { "false"@ }
}

/// The spelling of a control-flow signal.
pub open spec fn flow_chars(c: ControlFlow) -> Seq<char> {
    match c {
        ControlFlow::Break => "break"@,
        ControlFlow::Continue => "continue"@,
        ControlFlow::Return(_) => "return"@,
    }
}

/// The text a value displays as: a string displays as itself, a list as its
/// bracketed, comma-separated elements. `None` where rendering a list nested
/// (or cyclic) beyond `fuel` levels.
pub open spec fn data_string(cells: Seq<DataView>, d: DataView, fuel: nat) -> Option<Seq<char>>
    decreases fuel, 0int, 0int,
{
    match d {
        DataView::Str(s) => Some(s),
        DataView::Num(n) => Some(int_chars(n as int)),
        DataView::Bool(b) => Some(bool_chars(b)),
        DataView::Flow(c) => Some(flow_chars(c)),
        DataView::Unit => Some("()"@),
        DataView::List(elems) => if fuel == 0 {
            None
        } else {
            match list_items(cells, elems, (fuel - 1) as nat, ", "@) {
                Some(s) => Some("["@ + s + "]"@),
                None => None,
            }
        },
    }
}

/// The texts of the cells `elems`, separated by `sep`.
pub open spec fn list_items(cells: Seq<DataView>, elems: Seq<usize>, fuel: nat, sep: Seq<char>) -> Option<Seq<char>>
    decreases fuel, 1int, elems.len(),
{
    if elems.len() == 0 {
        Some(Seq::empty())
    } else {
        match data_string(cells, cells[elems[0] as int], fuel) {
            None => None,
            Some(first) => if elems.len() == 1 {
                Some(first)
            } else {
                match list_items(cells, elems.drop_first(), fuel, sep) {
                    None => None,
                    Some(rest) => Some(first + sep + rest),
                }
            },
        }
    }
}

/// Structural equality of two values, following cells through lists and
/// carried return values. `None` where the comparison nests (or cycles)
/// beyond `fuel` levels.
pub open spec fn deep_eq(cells: Seq<DataView>, a: DataView, b: DataView, fuel: nat) -> Option<bool>
    decreases fuel, 0int, 0int,
{
    match (a, b) {
        (DataView::Str(x), DataView::Str(y)) => Some(x == y),
        (DataView::Num(x), DataView::Num(y)) => Some(x == y),
        (DataView::Bool(x), DataView::Bool(y)) => Some(x == y),
        (DataView::Flow(x), DataView::Flow(y)) => match (x, y) {
            (ControlFlow::Return(cx), ControlFlow::Return(cy)) => if fuel == 0 {
                None
            } else {
                deep_eq(cells, cells[cx as int], cells[cy as int], (fuel - 1) as nat)
            },
            _ => Some(x == y),
        },
        (DataView::List(x), DataView::List(y)) => if x.len() != y.len() {
            Some(false)
        } else if fuel == 0 {
            None
        } else {
            list_eq(cells, x, y, (fuel - 1) as nat)
        },
        (DataView::Unit, DataView::Unit) => Some(true),
        _ => Some(false),
    }
}

/// Element-wise structural equality of two equally long cell lists.
pub open spec fn list_eq(cells: Seq<DataView>, x: Seq<usize>, y: Seq<usize>, fuel: nat) -> Option<bool>
    decreases fuel, 1int, x.len(),
{
    if x.len() == 0 {
        Some(true)
    } else {
        match deep_eq(cells, cells[x[0] as int], cells[y[0] as int], fuel) {
            Some(true) => list_eq(cells, x.drop_first(), y.drop_first(), fuel),
            Some(false) => Some(false),
            None => None,
        }
    }
}

/// Appends the display text of `d` to `out`; fails where the value nests (or
/// cycles) beyond `fuel` levels, leaving `out` in an unusable state.
pub fn write_data(cells: &Vec<Data>, d: &Data, fuel: u64, out: &mut String) -> (r: Result<(), Error>)
    requires
        cells_wf(cells@),
        data_wf(d@, cells@.len() as nat),
    ensures
        match data_string(cells_view(cells@), d@, fuel as nat) {
            Some(s) => r == Ok::<(), Error>(()) && final(out)@ == old(out)@ + s,
            None => r == Err::<(), Error>(Error::OutOfFuel),
        },
    decreases fuel, 0int, 0int,
{
    match d {
        Data::Str(s) => {
            out.append(s.as_str());
            Ok(())
        },
        Data::Num(n) => {
            let t = num_to_string(*n);
            out.append(t.as_str());
            Ok(())
        },
        Data::Bool(b) => {
            if *b {
                out.append("true");
            } else {
                out.append("false");
            }
            Ok(())
        },
        Data::Flow(c) => {
            match c {
                ControlFlow::Break => out.append("break"),
                ControlFlow::Continue => out.append("continue"),
                ControlFlow::Return(_) => out.append("return"),
            }
            Ok(())
        },
        Data::Unit => {
            out.append("()");
            Ok(())
        },
        Data::List(elems) => {
            if fuel == 0 {
                return Err(Error::OutOfFuel);
            }
            out.append("[");
            match write_items(cells, elems, 0, fuel - 1, ", ", out) {
                Ok(_) => {
                    out.append("]");
                    proof {
                        assert(elems@.skip(0) =~= elems@);
                        let s = list_items(cells_view(cells@), elems@, (fuel - 1) as nat, ", "@)->Some_0;
                        assert(out@ =~= old(out)@ + ("["@ + s + "]"@));
                    }
                    Ok(())
                },
                Err(e) => Err(e),
            }
        },
    }
}

/// Appends the display texts of the cells `elems[j..]`, separated by `sep`.
pub fn write_items(cells: &Vec<Data>, elems: &Vec<usize>, j: usize, fuel: u64, sep: &str, out: &mut String) -> (r: Result<(), Error>)
    requires
        cells_wf(cells@),
        j <= elems@.len(),
        forall|i: int| 0 <= i < elems@.len() ==> (#[trigger] elems@[i]) < cells@.len(),
    ensures
        match list_items(cells_view(cells@), elems@.skip(j as int), fuel as nat, sep@) {
            Some(s) => r == Ok::<(), Error>(()) && final(out)@ == old(out)@ + s,
            None => r == Err::<(), Error>(Error::OutOfFuel),
        },
    decreases fuel, 1int, elems@.len() - j,
{
    let ghost tail = elems@.skip(j as int);
    if j == elems.len() {
        proof {
            assert(old(out)@ + Seq::<char>::empty() =~= old(out)@);
        }
        return Ok(());
    }
    proof {
        assert(tail[0] == elems@[j as int]);
    }
    let e = elems[j];
    match write_data(cells, &cells[e], fuel, out) {
        Ok(_) => {},
        Err(err) => {
            return Err(err);
        },
    }
    if j + 1 == elems.len() {
        proof {
            assert(tail.len() == 1);
        }
        return Ok(());
    }
    out.append(sep);
    proof {
        assert(tail.drop_first() =~= elems@.skip(j as int + 1));
    }
    match write_items(cells, elems, j + 1, fuel, sep, out) {
        Ok(_) => Ok(()),
        Err(err) => Err(err),
    }
}

/// Structural equality of the values in two cells, following cells through
/// lists; fails where the values nest (or cycle) beyond `fuel` levels.
pub fn data_eq(cells: &Vec<Data>, a: &Data, b: &Data, fuel: u64) -> (r: Result<bool, Error>)
    requires
        cells_wf(cells@),
        data_wf(a@, cells@.len() as nat),
        data_wf(b@, cells@.len() as nat),
    ensures
        match deep_eq(cells_view(cells@), a@, b@, fuel as nat) {
            Some(v) => r == Ok::<bool, Error>(v),
            None => r == Err::<bool, Error>(Error::OutOfFuel),
        },
    decreases fuel, 0int, 0int,
{
    match (a, b) {
        (Data::Str(x), Data::Str(y)) => Ok(*x == *y),
        (Data::Num(x), Data::Num(y)) => Ok(*x == *y),
        (Data::Bool(x), Data::Bool(y)) => Ok(*x == *y),
        (Data::Flow(x), Data::Flow(y)) => match (x, y) {
            (ControlFlow::Return(cx), ControlFlow::Return(cy)) => {
                if fuel == 0 {
                    return Err(Error::OutOfFuel);
                }
                data_eq(cells, &cells[*cx], &cells[*cy], fuel - 1)
            },
            _ => Ok(*x == *y),
        },
        (Data::List(x), Data::List(y)) => {
            if x.len() != y.len() {
                return Ok(false);
            }
            if fuel == 0 {
                return Err(Error::OutOfFuel);
            }
            proof {
                assert(x@.skip(0) =~= x@);
                assert(y@.skip(0) =~= y@);
            }
            list_eq_from(cells, x, y, 0, fuel - 1)
        },
        (Data::Unit, Data::Unit) => Ok(true),
        _ => Ok(false),
    }
}

/// Element-wise structural equality of `x[j..]` and `y[j..]`.
fn list_eq_from(cells: &Vec<Data>, x: &Vec<usize>, y: &Vec<usize>, j: usize, fuel: u64) -> (r: Result<bool, Error>)
    requires
        cells_wf(cells@),
        j <= x@.len(),
        x@.len() == y@.len(),
        forall|i: int| 0 <= i < x@.len() ==> (#[trigger] x@[i]) < cells@.len(),
        forall|i: int| 0 <= i < y@.len() ==> (#[trigger] y@[i]) < cells@.len(),
    ensures
        match list_eq(cells_view(cells@), x@.skip(j as int), y@.skip(j as int), fuel as nat) {
            Some(v) => r == Ok::<bool, Error>(v),
            None => r == Err::<bool, Error>(Error::OutOfFuel),
        },
    decreases fuel, 1int, x@.len() - j,
{
    if j == x.len() {
        return Ok(true);
    }
    proof {
        assert(x@.skip(j as int)[0] == x@[j as int]);
        assert(y@.skip(j as int)[0] == y@[j as int]);
    }
    match data_eq(cells, &cells[x[j]], &cells[y[j]], fuel) {
        Ok(true) => {
            proof {
                assert(x@.skip(j as int).drop_first() =~= x@.skip(j as int + 1));
                assert(y@.skip(j as int).drop_first() =~= y@.skip(j as int + 1));
            }
            list_eq_from(cells, x, y, j + 1, fuel)
        },
        Ok(false) => Ok(false),
        Err(e) => Err(e),
    }
}

} // verus!
