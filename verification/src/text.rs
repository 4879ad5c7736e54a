use vstd::prelude::*;

verus! {

/// Collect the characters of a string slice into a vector, so that the
/// library's string logic can work over plain characters.
pub fn str_to_chars(s: &str) -> (r: Vec<char>)
    ensures
        r@ == s@,
{
    let n = s.unicode_len();
    let mut r: Vec<char> = Vec::new();
    let mut i: usize = 0;
    while i < n
        invariant
            i <= n,
            n == s@.len(),
            r@ == s@.take(i as int),
        decreases n - i,
    {
        r.push(s.get_char(i));
        i = i + 1;
        proof {
            assert(r@ =~= s@.take(i as int));
        }
    }
    proof {
        assert(r@ =~= s@);
    }
    r
}

/// Relies on String::push: appends the given character to the string.
#[verifier::external_body]
pub(crate) fn push_char(s: &mut String, c: char)
    ensures
        final(s)@ == old(s)@.push(c),
{
    s.push(c);
}

/// Rebuild a string from a vector of characters.
pub fn chars_to_string(v: &Vec<char>) -> (r: String)
    ensures
        r@ == v@,
{
    let mut r = String::new();
    let mut i: usize = 0;
    while i < v.len()
        invariant
            i <= v@.len(),
            r@ == v@.take(i as int),
        decreases v@.len() - i,
    {
        push_char(&mut r, v[i]);
        i = i + 1;
        proof {
            assert(r@ =~= v@.take(i as int));
        }
    }
    proof {
        assert(r@ =~= v@);
    }
    r
}

/// Join a directory and an entry with a '/' separator.
pub fn join_path(base: &str, rest: &str) -> (r: String)
    ensures
        r@ == base@ + seq!['/'] + rest@,
{
    let bv = str_to_chars(base);
    let rv = str_to_chars(rest);
    let mut out = bv;
    out.push('/');
    let ghost mid = base@ + seq!['/'];
    proof {
        assert(out@ =~= mid);
    }
    let n = rv.len();
    let mut i: usize = 0;
    while i < n
        invariant
            i <= n,
            n == rv@.len(),
            out@ == mid + rv@.take(i as int),
        decreases n - i,
    {
        out.push(rv[i]);
        i = i + 1;
        proof {
            assert(out@ =~= mid + rv@.take(i as int));
        }
    }
    proof {
        assert(rv@.take(n as int) =~= rv@);
    }
    chars_to_string(&out)
}

/// Lexicographic order on character sequences by Unicode scalar value: the
/// order binary collation gives UTF-8 text, and the order in which the
/// listings are returned.
pub open spec fn lex_leq(a: Seq<char>, b: Seq<char>) -> bool
    decreases a.len(),
{
    if a.len() == 0 {
        true
    } else if b.len() == 0 {
        false
    } else if a[0] == b[0] {
        lex_leq(a.skip(1), b.skip(1))
    } else {
        (a[0] as u32) < (b[0] as u32)
    }
}

/// Two distinct characters have distinct scalar values, and one of them is
/// the smaller.
proof fn lemma_char_trichotomy(c: char, d: char)
    ensures
        c == d || (c as u32) < (d as u32) || (d as u32) < (c as u32),
{
}

/// The order is total: of any two sequences, one is at or before the other.
pub proof fn lemma_lex_leq_total(a: Seq<char>, b: Seq<char>)
    ensures
        lex_leq(a, b) || lex_leq(b, a),
    decreases a.len(),
{
    if a.len() == 0 {
        assert(lex_leq(a, b));
    } else if b.len() == 0 {
        assert(lex_leq(b, a));
    } else if a[0] == b[0] {
        lemma_lex_leq_total(a.skip(1), b.skip(1));
        assert(lex_leq(a, b) == lex_leq(a.skip(1), b.skip(1)));
        assert(lex_leq(b, a) == lex_leq(b.skip(1), a.skip(1)));
    } else {
        lemma_char_trichotomy(a[0], b[0]);
        if (a[0] as u32) < (b[0] as u32) {
            assert(lex_leq(a, b));
        } else {
            assert((b[0] as u32) < (a[0] as u32));
            assert(lex_leq(b, a));
        }
    }
}

/// The order is transitive.
pub proof fn lemma_lex_leq_trans(a: Seq<char>, b: Seq<char>, c: Seq<char>)
    requires
        lex_leq(a, b),
        lex_leq(b, c),
    ensures
        lex_leq(a, c),
    decreases a.len(),
{
    if a.len() != 0 {
        if a[0] == b[0] && b[0] == c[0] {
            lemma_lex_leq_trans(a.skip(1), b.skip(1), c.skip(1));
        }
    }
}

/// Whether `a` sorts at or before `b`.
pub fn str_leq(a: &str, b: &str) -> (r: bool)
    ensures
        r == lex_leq(a@, b@),
{
    let av = str_to_chars(a);
    let bv = str_to_chars(b);
    let an = av.len();
    let bn = bv.len();
    let mut i: usize = 0;
    proof {
        assert(a@.skip(0) =~= a@);
        assert(b@.skip(0) =~= b@);
    }
    while i < an && i < bn
        invariant
            i <= an,
            i <= bn,
            an == av@.len(),
            bn == bv@.len(),
            av@ == a@,
            bv@ == b@,
            lex_leq(a@, b@) == lex_leq(a@.skip(i as int), b@.skip(i as int)),
        decreases an - i,
    {
        if av[i] != bv[i] {
            proof {
                assert(a@.skip(i as int)[0] == a@[i as int]);
                assert(b@.skip(i as int)[0] == b@[i as int]);
            }
            return (av[i] as u32) < (bv[i] as u32);
        }
        i = i + 1;
        proof {
            assert(a@.skip(i as int - 1).skip(1) =~= a@.skip(i as int));
            assert(b@.skip(i as int - 1).skip(1) =~= b@.skip(i as int));
            assert(a@.skip(i as int - 1)[0] == a@[i as int - 1]);
            assert(b@.skip(i as int - 1)[0] == b@[i as int - 1]);
        }
    }
    // One side is exhausted: the shorter (or equal) string sorts first.
    proof {
        assert(a@.skip(i as int).len() == an - i);
        assert(b@.skip(i as int).len() == bn - i);
    }
    an <= bn
}

/// Compare two string slices by their character sequences.
pub fn str_eq(a: &str, b: &str) -> (r: bool)
    ensures
        r == (a@ == b@),
{
    let sa = a.to_owned();
    let sb = b.to_owned();
    sa == sb
}

} // verus!
