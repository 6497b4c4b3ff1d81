//! Small verified string helpers: decimal rendering and selector escaping.

use vstd::prelude::*;

use vstd::string::StrSliceExecFns;
use vstd::string::StringExecFns;

verus! {

/// The character of one decimal digit.
pub open spec fn digit_char(d: int) -> char {
    if d == 0 {
        '0'
    } else if d == 1 {
        '1'
    } else if d == 2 {
        '2'
    } else if d == 3 {
        '3'
    } else if d == 4 {
        '4'
    } else if d == 5 {
        '5'
    } else if d == 6 {
        '6'
    } else if d == 7 {
        '7'
    } else if d == 8 {
        '8'
    } else {
        '9'
    }
}

/// The decimal digits of a non-negative number, most significant first.
pub open spec fn dec_str(n: int) -> Seq<char>
    decreases n,
{
    if n < 10 {
        seq![digit_char(n)]
    } else {
        dec_str(n / 10).push(digit_char(n % 10))
    }
}

/// The decimal text of an integer, a minus sign leading a negative one.
pub open spec fn int_str(n: int) -> Seq<char> {
    if n < 0 {
        seq!['-'] + dec_str(-n)
    } else {
        dec_str(n)
    }
}

fn digit_str(d: u32) -> (r: &'static str)
    requires
        d < 10,
    ensures
        r@ == seq![digit_char(d as int)],
{
    let r: &'static str = if d == 0 {
        "0"
    } else if d == 1 {
        "1"
    } else if d == 2 {
        "2"
    } else if d == 3 {
        "3"
    } else if d == 4 {
        "4"
    } else if d == 5 {
        "5"
    } else if d == 6 {
        "6"
    } else if d == 7 {
        "7"
    } else if d == 8 {
        "8"
    } else {
        "9"
    };
    proof {
        reveal_strlit("0");
        reveal_strlit("1");
        reveal_strlit("2");
        reveal_strlit("3");
        reveal_strlit("4");
        reveal_strlit("5");
        reveal_strlit("6");
        reveal_strlit("7");
        reveal_strlit("8");
        reveal_strlit("9");
        assert(r@ =~= seq![digit_char(d as int)]);
    }
    r
}

fn push_u32_decimal(out: &mut String, n: u32)
    ensures
        final(out)@ == old(out)@ + dec_str(n as int),
    decreases n,
{
    if n >= 10 {
        push_u32_decimal(out, n / 10);
    }
    let d = digit_str(n % 10);
    out.append(d);
    proof {
        if n >= 10 {
            assert(final(out)@ =~= old(out)@ + dec_str(n as int));
        } else {
            assert(final(out)@ =~= old(out)@ + dec_str(n as int));
        }
    }
}

/// Append the decimal text of an integer.
pub fn push_i32_decimal(out: &mut String, n: i32)
    ensures
        final(out)@ == old(out)@ + int_str(n as int),
{
    if n < 0 {
        out.append("-");
        let mag: u32 = (-(n as i64)) as u32;
        push_u32_decimal(out, mag);
        proof {
            reveal_strlit("-");
            assert(mag == -(n as int));
            assert(final(out)@ =~= old(out)@ + int_str(n as int));
        }
    } else {
        push_u32_decimal(out, n as u32);
    }
}

/// The decimal text of an integer as a string.
pub fn i32_to_string(n: i32) -> (r: String)
    ensures
        r@ == int_str(n as int),
{
    let mut out = String::new();
    push_i32_decimal(&mut out, n);
    proof {
        assert(out@ =~= int_str(n as int));
    }
    out
}

/// One selector character as it appears inside a quoted selector string:
/// backslashes and double quotes are escaped, all else stands for itself.
pub open spec fn escaped_char(c: char) -> Seq<char> {
    if c == '\\' {
        seq!['\\', '\\']
    } else if c == '"' {
        seq!['\\', '"']
    } else {
        seq![c]
    }
}

/// A text with its backslashes and double quotes escaped.
pub open spec fn escaped(s: Seq<char>) -> Seq<char>
    decreases s.len(),
{
    if s.len() == 0 {
        Seq::empty()
    } else {
        escaped_char(s[0]) + escaped(s.drop_first())
    }
}

proof fn lemma_escaped_snoc(s: Seq<char>, c: char)
    ensures
        escaped(s.push(c)) == escaped(s) + escaped_char(c),
    decreases s.len(),
{
    if s.len() == 0 {
        assert(s.push(c).drop_first() =~= Seq::<char>::empty());
        assert(escaped(Seq::<char>::empty()) =~= Seq::<char>::empty());
        assert(s.push(c)[0] == c);
        assert(escaped(s.push(c)) =~= escaped_char(c));
        assert(escaped(s) + escaped_char(c) =~= escaped_char(c));
    } else {
        lemma_escaped_snoc(s.drop_first(), c);
        assert(s.push(c).drop_first() =~= s.drop_first().push(c));
        assert(escaped(s.push(c)) =~= escaped(s) + escaped_char(c));
    }
}

/// Escape a text for quoting inside a selector.
pub fn escape(s: &str) -> (r: String)
    ensures
        r@ == escaped(s@),
{
    let n = s.unicode_len();
    let mut out = String::new();
    proof {
        assert(s@.subrange(0, 0) =~= Seq::<char>::empty());
        assert(escaped(Seq::<char>::empty()) =~= Seq::<char>::empty());
        assert(out@ =~= escaped(s@.subrange(0, 0)));
    }
    let mut i: usize = 0;
    while i < n
        invariant
            i <= n,
            n == s@.len(),
            out@ == escaped(s@.subrange(0, i as int)),
        decreases n - i,
    {
        let c = s.get_char(i);
        if c == '\\' {
            out.append("\\\\");
        } else if c == '"' {
            out.append("\\\"");
        } else {
            let piece = s.substring_char(i, i + 1);
            out.append(piece);
        }
        i += 1;
        proof {
            reveal_strlit("\\\\");
            reveal_strlit("\\\"");
            lemma_escaped_snoc(s@.subrange(0, i - 1), s@[i - 1]);
            assert(s@.subrange(0, i as int) =~= s@.subrange(0, i - 1).push(s@[i - 1]));
            assert(s@.subrange(i - 1, i as int) =~= seq![s@[i - 1]]);
            assert(out@ =~= escaped(s@.subrange(0, i as int)));
        }
    }
    proof {
        assert(s@.subrange(0, s@.len() as int) =~= s@);
    }
    out
}

/// One character as it appears when only double quotes are escaped.
pub open spec fn quote_escaped_char(c: char) -> Seq<char> {
    if c == '"' {
        seq!['\\', '"']
    } else {
        seq![c]
    }
}

/// A text with only its double quotes escaped.
pub open spec fn quote_escaped(s: Seq<char>) -> Seq<char>
    decreases s.len(),
{
    if s.len() == 0 {
        Seq::empty()
    } else {
        quote_escaped_char(s[0]) + quote_escaped(s.drop_first())
    }
}

proof fn lemma_quote_escaped_snoc(s: Seq<char>, c: char)
    ensures
        quote_escaped(s.push(c)) == quote_escaped(s) + quote_escaped_char(c),
    decreases s.len(),
{
    if s.len() == 0 {
        assert(s.push(c).drop_first() =~= Seq::<char>::empty());
        assert(quote_escaped(Seq::<char>::empty()) =~= Seq::<char>::empty());
        assert(s.push(c)[0] == c);
        assert(quote_escaped(s.push(c)) =~= quote_escaped_char(c));
        assert(quote_escaped(s) + quote_escaped_char(c) =~= quote_escaped_char(c));
    } else {
        lemma_quote_escaped_snoc(s.drop_first(), c);
        assert(s.push(c).drop_first() =~= s.drop_first().push(c));
        assert(quote_escaped(s.push(c)) =~= quote_escaped(s) + quote_escaped_char(c));
    }
}

/// Escape only the double quotes of a text.
pub fn escape_quotes(s: &str) -> (r: String)
    ensures
        r@ == quote_escaped(s@),
{
    let n = s.unicode_len();
    let mut out = String::new();
    proof {
        assert(s@.subrange(0, 0) =~= Seq::<char>::empty());
        assert(quote_escaped(Seq::<char>::empty()) =~= Seq::<char>::empty());
        assert(out@ =~= quote_escaped(s@.subrange(0, 0)));
    }
    let mut i: usize = 0;
    while i < n
        invariant
            i <= n,
            n == s@.len(),
            out@ == quote_escaped(s@.subrange(0, i as int)),
        decreases n - i,
    {
        let c = s.get_char(i);
        if c == '"' {
            out.append("\\\"");
        } else {
            let piece = s.substring_char(i, i + 1);
            out.append(piece);
        }
        i += 1;
        proof {
            reveal_strlit("\\\"");
            lemma_quote_escaped_snoc(s@.subrange(0, i - 1), s@[i - 1]);
            assert(s@.subrange(0, i as int) =~= s@.subrange(0, i - 1).push(s@[i - 1]));
            assert(s@.subrange(i - 1, i as int) =~= seq![s@[i - 1]]);
            assert(out@ =~= quote_escaped(s@.subrange(0, i as int)));
        }
    }
    proof {
        assert(s@.subrange(0, s@.len() as int) =~= s@);
    }
    out
}

} // verus!
