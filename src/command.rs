//! Splitting and measuring a command line.

use vstd::prelude::*;
use vstd::string::*;

verus! {

/// Number of space characters in `s`.
pub open spec fn spaces_in(s: Seq<char>) -> nat
    decreases s.len(),
{
    if s.len() == 0 {
        0
    } else {
        spaces_in(s.drop_last()) + if s.last() == ' ' {
            1nat
        } else {
            0nat
        }
    }
}

/// Number of bytes needed to hold `s` with a terminating zero byte.
pub fn buflen(s: &str) -> (r: usize)
    requires
        s.spec_bytes().len() < usize::MAX,
    ensures
        r == s.spec_bytes().len() + 1,
{
    s.len() + 1
}

/// Number of space characters (`' '`) in `s`; tabs and other
/// whitespace do not count.
pub fn get_n_spaces(s: &str) -> (r: usize)
    requires
        s@.len() <= usize::MAX,
    ensures
        r == spaces_in(s@),
{
    broadcast use axiom_spec_iter;
    let mut n: usize = 0;
    for c in it: s.chars()
        invariant
            it.seq() == s@,
            n == spaces_in(s@.take(it.index() as int)),
            n <= it.index(),
            s@.len() <= usize::MAX,
    {
        proof {
            assert(s@.take(it.index() + 1).drop_last() =~= s@.take(it.index() as int));
        }
        if c == ' ' {
            n = n + 1;
        }
    }
    proof {
        assert(s@.take(s@.len() as int) =~= s@);
    }
    n
}

/// Unicode's White_Space property, the set that `char::is_whitespace`
/// tests for.
pub open spec fn white_space(c: char) -> bool {
    let v = c as u32;
    ||| 0x9 <= v <= 0xD
    ||| v == 0x20
    ||| v == 0x85
    ||| v == 0xA0
    ||| v == 0x1680
    ||| 0x2000 <= v <= 0x200A
    ||| v == 0x2028
    ||| v == 0x2029
    ||| v == 0x202F
    ||| v == 0x205F
    ||| v == 0x3000
}

/// Whether `c` is a Unicode white-space character.
pub fn is_white_space(c: char) -> (r: bool)
    ensures
        r == white_space(c),
{
    let v = c as u32;
    (0x9 <= v && v <= 0xD) || v == 0x20 || v == 0x85 || v == 0xA0 || v == 0x1680 || (0x2000 <= v
        && v <= 0x200A) || v == 0x2028 || v == 0x2029 || v == 0x202F || v == 0x205F || v == 0x3000
}

/// Reading `s` from the left: the words already ended by white space, and
/// the word in progress.
pub open spec fn scan(s: Seq<char>) -> (Seq<Seq<char>>, Seq<char>)
    decreases s.len(),
{
    if s.len() == 0 {
        (Seq::empty(), Seq::empty())
    } else {
        let prev = scan(s.drop_last());
        let c = s.last();
        if white_space(c) {
            if prev.1.len() > 0 {
                (prev.0.push(prev.1), Seq::empty())
            } else {
                prev
            }
        } else {
            (prev.0, prev.1.push(c))
        }
    }
}

/// The maximal runs of non-white-space characters of `s`, in order.
pub open spec fn words(s: Seq<char>) -> Seq<Seq<char>> {
    let p = scan(s);
    if p.1.len() > 0 {
        p.0.push(p.1)
    } else {
        p.0
    }
}

/// A word with a double quote at both ends loses them; any other word
/// stays as it is.
pub open spec fn unquote(w: Seq<char>) -> Seq<char> {
    if w.len() > 1 && w[0] == '"' && w.last() == '"' {
        w.subrange(1, w.len() - 1)
    } else {
        w
    }
}

/// The arguments of command line `s`.
pub open spec fn tokens_of(s: Seq<char>) -> Seq<Seq<char>> {
    words(s).map_values(|w: Seq<char>| unquote(w))
}

/// Relies on `String::push`: appends one character at the end.
#[verifier::external_body]
fn push_char(s: &mut String, c: char)
    ensures
        final(s)@ == old(s)@.push(c),
{
    s.push(c);
}

/// The characters `w[lo..hi]` as a string.
fn collect_chars(w: &Vec<char>, lo: usize, hi: usize) -> (r: String)
    requires
        lo <= hi <= w@.len(),
    ensures
        r@ == w@.subrange(lo as int, hi as int),
{
    let mut r = String::new();
    let mut i = lo;
    while i < hi
        invariant
            lo <= i <= hi <= w@.len(),
            r@ == w@.subrange(lo as int, i as int),
        decreases hi - i,
    {
        push_char(&mut r, w[i]);
        assert(r@ =~= w@.subrange(lo as int, i + 1));
        i = i + 1;
    }
    r
}

/// The word `w` as an argument, without its enclosing double quotes.
fn unquoted(w: &Vec<char>) -> (r: String)
    ensures
        r@ == unquote(w@),
{
    let n = w.len();
    if n > 1 && w[0] == '"' && w[n - 1] == '"' {
        collect_chars(w, 1, n - 1)
    } else {
        let r = collect_chars(w, 0, n);
        assert(w@.subrange(0, n as int) =~= w@);
        r
    }
}

/// Splits a command line at white space into arguments; an argument
/// written between double quotes loses the quotes.
pub fn tokenize(s: &str) -> (r: Vec<String>)
    ensures
        r@.map_values(|t: String| t@) == tokens_of(s@),
{
    broadcast use axiom_spec_iter;
    let mut tokens: Vec<String> = Vec::new();
    let mut cur: Vec<char> = Vec::new();
    for c in it: s.chars()
        invariant
            it.seq() == s@,
            tokens@.len() == scan(s@.take(it.index() as int)).0.len(),
            forall|j: int|
                0 <= j < tokens@.len() ==> (#[trigger] tokens@[j])@ == unquote(
                    scan(s@.take(it.index() as int)).0[j],
                ),
            cur@ == scan(s@.take(it.index() as int)).1,
    {
        let ghost pre = s@.take(it.index() as int);
        let ghost post = s@.take(it.index() + 1);
        proof {
            assert(post.drop_last() =~= pre);
            assert(post.last() == c);
        }
        if is_white_space(c) {
            if cur.len() > 0 {
                let t = unquoted(&cur);
                tokens.push(t);
                cur = Vec::new();
                assert(cur@ =~= Seq::<char>::empty());
            }
        } else {
            cur.push(c);
        }
    }
    let ghost all = s@.take(s@.len() as int);
    proof {
        assert(all =~= s@);
    }
    if cur.len() > 0 {
        let t = unquoted(&cur);
        tokens.push(t);
    }
    assert(tokens@.map_values(|t: String| t@) =~= tokens_of(s@));
    tokens
}

} // verus!
