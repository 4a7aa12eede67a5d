//! Text helpers over `str` and `String`, stated over their character
//! sequences.

use vstd::prelude::*;
use vstd::string::*;
use vstd::utf8::*;

verus! {

/// Whether two strings hold the same characters.
pub fn same_text(a: &str, b: &str) -> (r: bool)
    ensures
        r == (a@ == b@),
{
    let x = a.as_bytes();
    let y = b.as_bytes();
    if x.len() != y.len() {
        return false;
    }
    let mut i: usize = 0;
    while i < x.len()
        invariant
            i <= x.len(),
            x.len() == y.len(),
            x@ == a.spec_bytes(),
            y@ == b.spec_bytes(),
            forall|j: int| 0 <= j < i ==> x@[j] == y@[j],
        decreases x.len() - i,
    {
        if x[i] != y[i] {
            return false;
        }
        i += 1;
    }
    proof {
        assert(x@ =~= y@);
        encode_utf8_decode_utf8(a@);
        encode_utf8_decode_utf8(b@);
    }
    true
}

/// The characters of a string, in order.
pub fn chars_of(s: &str) -> (r: Vec<char>)
    ensures
        r@ == s@,
{
    let mut out: Vec<char> = Vec::new();
    for c in it: s.chars()
        invariant
            it.seq() == s@,
            out@ == s@.take(it.index() as int),
    {
        out.push(c);
        assert(s@.take(it.index() as int + 1) =~= s@.take(it.index() as int).push(c));
    }
    assert(s@.take(s@.len() as int) =~= s@);
    out
}

/// The character sequences of a sequence of strings.
pub open spec fn texts(strings: Seq<String>) -> Seq<Seq<char>> {
    Seq::new(strings.len(), |i: int| strings[i]@)
}

/// The parts written one after the other with a `/` between neighbours.
pub open spec fn joined(parts: Seq<Seq<char>>) -> Seq<char>
    decreases parts.len(),
{
    if parts.len() == 0 {
        Seq::empty()
    } else if parts.len() == 1 {
        parts[0]
    } else {
        joined(parts.drop_last()) + seq!['/'] + parts.last()
    }
}

/// The pieces of `s` between its occurrences of `/`: one more piece than
/// there are occurrences, none of them holding a `/`.
pub open spec fn split_on_slash(s: Seq<char>) -> Seq<Seq<char>>
    decreases s.len(),
{
    if s.len() == 0 {
        seq![Seq::empty()]
    } else {
        let before = split_on_slash(s.drop_last());
        if s.last() == '/' {
            before.push(Seq::empty())
        } else {
            before.drop_last().push(before.last().push(s.last()))
        }
    }
}

/// Joins the parts with `/`.
pub fn join_with_slash(parts: &Vec<String>) -> (r: String)
    ensures
        r@ == joined(texts(parts@)),
{
    let mut out = String::new();
    let mut i: usize = 0;
    while i < parts.len()
        invariant
            i <= parts.len(),
            out@ == joined(texts(parts@).take(i as int)),
        decreases parts.len() - i,
    {
        let ghost before = texts(parts@).take(i as int);
        let ghost after = texts(parts@).take(i as int + 1);
        proof {
            reveal_strlit("/");
            assert(after.drop_last() =~= before);
            assert(after.last() == parts[i as int]@);
            assert("/"@ =~= seq!['/']);
        }
        if i > 0 {
            out.append("/");
        } else {
            assert(joined(before) =~= Seq::<char>::empty());
        }
        out.append(parts[i].as_str());
        assert(out@ =~= joined(after));
        i += 1;
    }
    assert(texts(parts@).take(parts.len() as int) =~= texts(parts@));
    out
}

/// Splits `s` at each `/`.
pub fn split_at_slashes(s: &str) -> (r: Vec<String>)
    ensures
        texts(r@) == split_on_slash(s@),
{
    let chars = chars_of(s);
    let mut out: Vec<String> = Vec::new();
    let mut start: usize = 0;
    let mut i: usize = 0;
    proof {
        assert(s@.take(0) =~= Seq::<char>::empty());
        assert(s@.subrange(0, 0) =~= Seq::<char>::empty());
        assert(texts(out@).push(Seq::<char>::empty()) =~= seq![Seq::<char>::empty()]);
    }
    while i < chars.len()
        invariant
            chars@ == s@,
            start <= i <= chars.len(),
            split_on_slash(s@.take(i as int)) == texts(out@).push(
                s@.subrange(start as int, i as int),
            ),
        decreases chars.len() - i,
    {
        let ghost prefix = s@.take(i as int);
        let ghost next = s@.take(i as int + 1);
        proof {
            assert(next.drop_last() =~= prefix);
            assert(next.last() == s@[i as int]);
        }
        if chars[i] == '/' {
            let piece = s.substring_char(start, i);
            let ghost before = texts(out@);
            out.push(String::from_str(piece));
            proof {
                assert(texts(out@) =~= before.push(s@.subrange(start as int, i as int)));
                assert(s@.subrange(i as int + 1, i as int + 1) =~= Seq::<char>::empty());
            }
            start = i + 1;
        } else {
            proof {
                let parts = split_on_slash(prefix);
                assert(parts.drop_last() =~= texts(out@));
                assert(parts.last().push(s@[i as int]) =~= s@.subrange(
                    start as int,
                    i as int + 1,
                ));
            }
        }
        i += 1;
    }
    let piece = s.substring_char(start, i);
    let ghost before = texts(out@);
    out.push(String::from_str(piece));
    proof {
        assert(s@.take(i as int) =~= s@);
        assert(texts(out@) =~= before.push(s@.subrange(start as int, i as int)));
    }
    out
}

/// How one character of a name is written inside a pointer: `~` as `~0`
/// and `/` as `~1`, any other character as itself.
pub open spec fn escaped_char(c: char) -> Seq<char> {
    if c == '~' {
        seq!['~', '0']
    } else if c == '/' {
        seq!['~', '1']
    } else {
        seq![c]
    }
}

/// A name as it is written inside a pointer: each character escaped.
pub open spec fn escaped(s: Seq<char>) -> Seq<char>
    decreases s.len(),
{
    if s.len() == 0 {
        Seq::empty()
    } else {
        escaped(s.drop_last()) + escaped_char(s.last())
    }
}

/// The names that a fragment addresses, one after the other: the pieces
/// between the slashes of a fragment that starts with `/`, and the whole
/// fragment as a single name otherwise.
pub open spec fn pointer_names(fragment: Seq<char>) -> Seq<Seq<char>> {
    if fragment.len() > 0 && fragment[0] == '/' {
        split_on_slash(fragment.subrange(1, fragment.len() as int))
    } else {
        seq![fragment]
    }
}

/// Writes a name as it stands inside a pointer.
pub fn escape_name(name: &str) -> (r: String)
    ensures
        r@ == escaped(name@),
{
    let chars = chars_of(name);
    let mut out = String::new();
    let mut start: usize = 0;
    let mut i: usize = 0;
    proof {
        assert(name@.take(0) =~= Seq::<char>::empty());
        assert(out@ + name@.subrange(0, 0) =~= Seq::<char>::empty());
    }
    while i < chars.len()
        invariant
            chars@ == name@,
            start <= i <= chars.len(),
            out@ + name@.subrange(start as int, i as int) == escaped(name@.take(i as int)),
        decreases chars.len() - i,
    {
        let ghost prefix = name@.take(i as int);
        let ghost next = name@.take(i as int + 1);
        let c = chars[i];
        proof {
            assert(next.drop_last() =~= prefix);
            assert(next.last() == c);
            reveal_strlit("~0");
            reveal_strlit("~1");
            assert("~0"@ =~= seq!['~', '0']);
            assert("~1"@ =~= seq!['~', '1']);
        }
        if c == '~' || c == '/' {
            let ghost before = out@;
            let ghost run = start;
            out.append(name.substring_char(start, i));
            if c == '~' {
                out.append("~0");
            } else {
                out.append("~1");
            }
            start = i + 1;
            proof {
                assert(out@ + name@.subrange(start as int, start as int) =~= before
                    + name@.subrange(run as int, i as int) + escaped_char(c));
            }
        } else {
            assert(out@ + name@.subrange(start as int, i as int + 1) =~= out@ + name@.subrange(
                start as int,
                i as int,
            ) + seq![c]);
        }
        i += 1;
    }
    out.append(name.substring_char(start, i));
    proof {
        assert(name@.take(i as int) =~= name@);
    }
    out
}

/// The names that a fragment addresses: see [`pointer_names`].
pub fn names_of_pointer(fragment: &str) -> (r: Vec<String>)
    ensures
        texts(r@) == pointer_names(fragment@),
{
    let chars = chars_of(fragment);
    if chars.len() > 0 && chars[0] == '/' {
        split_at_slashes(fragment.substring_char(1, chars.len()))
    } else {
        let mut out: Vec<String> = Vec::new();
        out.push(String::from_str(fragment));
        assert(texts(out@) =~= seq![fragment@]);
        out
    }
}

/// The character of a decimal digit.
pub open spec fn digit(d: nat) -> char {
    if d == 0 {
        '0'
    } else if d == 1 {
        '1'
    } else if d == 2 {
        '2'
    } else if d == 3 {
        '3'
    } else if d == 4 {
        '4'
    } else if d == 5 {
        '5'
    } else if d == 6 {
        '6'
    } else if d == 7 {
        '7'
    } else if d == 8 {
        '8'
    } else {
        '9'
    }
}

/// A number written in decimal, without leading zeros.
pub open spec fn decimal(n: nat) -> Seq<char>
    decreases n,
{
    if n < 10 {
        seq![digit(n)]
    } else {
        decimal(n / 10).push(digit(n % 10))
    }
}

/// The text of one decimal digit.
fn digit_text(d: usize) -> (r: &'static str)
    requires
        d < 10,
    ensures
        r@ == seq![digit(d as nat)],
{
    proof {
        reveal_strlit("0");
        reveal_strlit("1");
        reveal_strlit("2");
        reveal_strlit("3");
        reveal_strlit("4");
        reveal_strlit("5");
        reveal_strlit("6");
        reveal_strlit("7");
        reveal_strlit("8");
        reveal_strlit("9");
    }
    let r = if d == 0 {
        "0"
    } else if d == 1 {
        "1"
    } else if d == 2 {
        "2"
    } else if d == 3 {
        "3"
    } else if d == 4 {
        "4"
    } else if d == 5 {
        "5"
    } else if d == 6 {
        "6"
    } else if d == 7 {
        "7"
    } else if d == 8 {
        "8"
    } else {
        "9"
    };
    assert(r@ =~= seq![digit(d as nat)]);
    r
}

/// Writes a number in decimal.
pub fn decimal_text(n: usize) -> (r: String)
    ensures
        r@ == decimal(n as nat),
    decreases n,
{
    if n < 10 {
        String::from_str(digit_text(n))
    } else {
        let mut out = decimal_text(n / 10);
        out.append(digit_text(n % 10));
        assert(out@ =~= decimal(n as nat));
        out
    }
}

} // verus!
