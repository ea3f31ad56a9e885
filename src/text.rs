//! Building blocks for the textual dump: decimal numerals and joined lists.
use vstd::prelude::*;

verus! {

/// The text of one decimal digit.
pub open spec fn digit_text(d: nat) -> Seq<char> {
    if d == 0 {
        "0"@
    } else if d == 1 {
        "1"@
    } else if d == 2 {
        "2"@
    } else if d == 3 {
        "3"@
    } else if d == 4 {
        "4"@
    } else if d == 5 {
        "5"@
    } else if d == 6 {
        "6"@
    } else if d == 7 {
        "7"@
    } else if d == 8 {
        "8"@
    } else {
        "9"@
    }
}

/// The decimal numeral of `n`, most significant digit first, without leading zeros.
pub open spec fn decimal(n: nat) -> Seq<char>
    decreases n,
{
    if n < 10 {
        digit_text(n)
    } else {
        decimal(n / 10) + digit_text(n % 10)
    }
}

/// The items of `parts` with `sep` between each two neighbours.
pub open spec fn join(parts: Seq<Seq<char>>, sep: Seq<char>) -> Seq<char>
    decreases parts.len(),
{
    if parts.len() == 0 {
        Seq::empty()
    } else if parts.len() == 1 {
        parts[0]
    } else {
        join(parts.drop_last(), sep) + sep + parts.last()
    }
}

/// Text `"Some(n)"` or `"None"`, as `{:?}` writes an optional integer.
pub open spec fn opt_decimal(o: Option<u64>) -> Seq<char> {
    match o {
        Some(n) => "Some("@ + decimal(n as nat) + ")"@,
        None => "None"@,
    }
}

fn digit_str(d: u64) -> (r: &'static str)
    requires
        d < 10,
    ensures
        r@ == digit_text(d as nat),
{
    if d == 0 {
        "0"
    } else if d == 1 {
        "1"
    } else if d == 2 {
        "2"
    } else if d == 3 {
        "3"
    } else if d == 4 {
        "4"
    } else if d == 5 {
        "5"
    } else if d == 6 {
        "6"
    } else if d == 7 {
        "7"
    } else if d == 8 {
        "8"
    } else {
        "9"
    }
}

/// Appends the decimal numeral of `n` to `out`.
pub fn push_decimal(out: &mut String, n: u64)
    ensures
        final(out)@ == old(out)@ + decimal(n as nat),
    decreases n,
{
    if n >= 10 {
        push_decimal(out, n / 10);
    }
    out.append(digit_str(n % 10));
    assert(final(out)@ =~= old(out)@ + decimal(n as nat));
}

/// Appends `"Some(n)"` or `"None"` to `out`.
pub fn push_opt_decimal(out: &mut String, o: Option<u64>)
    ensures
        final(out)@ == old(out)@ + opt_decimal(o),
{
    match o {
        Some(n) => {
            out.append("Some(");
            push_decimal(out, n);
            out.append(")");
        },
        None => {
            out.append("None");
        },
    }
    assert(final(out)@ =~= old(out)@ + opt_decimal(o));
}

/// Joining one more item extends the joined text by the separator and that item.
pub proof fn lemma_join_push(parts: Seq<Seq<char>>, sep: Seq<char>, p: Seq<char>)
    ensures
        join(parts.push(p), sep) == if parts.len() == 0 {
            p
        } else {
            join(parts, sep) + sep + p
        },
{
    assert(parts.push(p).drop_last() =~= parts);
}

/// A thing with a text form in the dump.
pub trait Dump {
    spec fn dump(&self) -> Seq<char>;

    fn push_dump(&self, out: &mut String)
        ensures
            final(out)@ == old(out)@ + self.dump(),
    ;
}

/// The text forms of the first `n` items of `s`, separated by `", "`.
pub open spec fn list_text<T: Dump>(s: Seq<T>, n: int) -> Seq<char>
    decreases n,
{
    if n <= 0 {
        Seq::empty()
    } else if n == 1 {
        s[0].dump()
    } else {
        list_text(s, n - 1) + ", "@ + s[n - 1].dump()
    }
}

/// Appends the text forms of the items of `s` to `out`, separated by `", "`.
pub fn push_list<T: Dump>(out: &mut String, s: &[T])
    ensures
        final(out)@ == old(out)@ + list_text(s@, s@.len() as int),
{
    let mut i: usize = 0;
    while i < s.len()
        invariant
            i <= s@.len(),
            out@ == old(out)@ + list_text(s@, i as int),
        decreases s@.len() - i,
    {
        if i > 0 {
            out.append(", ");
        }
        s[i].push_dump(out);
        i = i + 1;
        assert(out@ =~= old(out)@ + list_text(s@, i as int));
    }
}

} // verus!
