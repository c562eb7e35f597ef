use vstd::prelude::*;
use crate::protocol::is_ws_char;
use vstd::string::StrSliceExecFns;

verus! {

/// The text with its leading whitespace removed.
pub open spec fn trim_front_model(s: Seq<char>) -> Seq<char>
    decreases s.len(),
{
    if s.len() > 0 && is_ws_char(s[0]) {
        trim_front_model(s.drop_first())
    } else {
        s
    }
}

/// The text with its trailing whitespace removed.
pub open spec fn trim_back_model(s: Seq<char>) -> Seq<char>
    decreases s.len(),
{
    if s.len() > 0 && is_ws_char(s.last()) {
        trim_back_model(s.drop_last())
    } else {
        s
    }
}

/// The text with its trailing path separators removed.
pub open spec fn trim_slashes_model(s: Seq<char>) -> Seq<char>
    decreases s.len(),
{
    if s.len() > 0 && s.last() == '/' {
        trim_slashes_model(s.drop_last())
    } else {
        s
    }
}

/// What a folder choice printed by the host's native picker normalizes to:
/// surrounding whitespace dropped, then any trailing path separators.
pub open spec fn picked_dir_model(s: Seq<char>) -> Seq<char> {
    trim_slashes_model(trim_back_model(trim_front_model(s)))
}

/// Whitespace as the picker's normalization drops it.
fn is_ws_c(c: char) -> (r: bool)
    ensures
        r == is_ws_char(c),
{
    c == ' ' || c == '\t' || c == '\n' || c == '\r'
}

/// Normalizes the path text a native folder picker prints: drops the
/// surrounding whitespace (the trailing line terminator included), then
/// any trailing path separators.
pub fn normalize_picked_dir(s: &str) -> (r: String)
    ensures
        r@ == picked_dir_model(s@),
{
    let n: usize = s.unicode_len();
    let mut a: usize = 0;
    proof {
        assert(s@.skip(0) =~= s@);
    }
    while a < n && is_ws_c(s.get_char(a))
        invariant
            a <= n,
            n == s@.len(),
            trim_front_model(s@) == trim_front_model(s@.skip(a as int)),
        decreases n - a,
    {
        proof {
            assert(s@.skip(a as int)[0] == s@[a as int]);
            assert(s@.skip(a as int).drop_first() =~= s@.skip(a as int + 1));
        }
        a += 1;
    }
    let ghost t = s@.skip(a as int);
    proof {
        if a < n {
            assert(t[0] == s@[a as int]);
        }
        assert(trim_front_model(t) == t);
    }
    let mut b: usize = n;
    proof {
        assert(t.take(n as int - a as int) =~= t);
    }
    while b > a && is_ws_c(s.get_char(b - 1))
        invariant
            a <= b <= n,
            n == s@.len(),
            t == s@.skip(a as int),
            trim_back_model(t) == trim_back_model(t.take(b as int - a as int)),
        decreases b,
    {
        proof {
            let part = t.take(b as int - a as int);
            assert(part.last() == s@[b as int - 1]);
            assert(part.drop_last() =~= t.take(b as int - 1 - a as int));
        }
        b -= 1;
    }
    let ghost u = t.take(b as int - a as int);
    proof {
        if b > a {
            assert(u.last() == s@[b as int - 1]);
        }
        assert(trim_back_model(u) == u);
    }
    let mut c: usize = b;
    proof {
        assert(u.take(b as int - a as int) =~= u);
    }
    while c > a && s.get_char(c - 1) == '/'
        invariant
            a <= c <= b <= n,
            n == s@.len(),
            t == s@.skip(a as int),
            u == t.take(b as int - a as int),
            trim_slashes_model(u) == trim_slashes_model(u.take(c as int - a as int)),
        decreases c,
    {
        proof {
            let part = u.take(c as int - a as int);
            assert(part.last() == s@[c as int - 1]);
            assert(part.drop_last() =~= u.take(c as int - 1 - a as int));
        }
        c -= 1;
    }
    let ghost v = u.take(c as int - a as int);
    proof {
        if c > a {
            assert(v.last() == s@[c as int - 1]);
        }
        assert(trim_slashes_model(v) == v);
        assert(v =~= s@.subrange(a as int, c as int));
    }
    s.substring_char(a, c).to_owned()
}

} // verus!
