//! The whitespace-trim operations of the code generator: definition
//! bodies are rendered, then trimmed at their start and/or end according
//! to the definition's trim flags.
use vstd::prelude::*;

use vstd::string::StrSliceExecFns;
use vstd::string::StringExecFns;

verus! {

/// The whitespace characters, exactly the set the trim operations drop.
pub open spec fn is_ws(c: char) -> bool {
    ||| c == ' '
    ||| c == '\t'
    ||| c == '\n'
    ||| c == '\u{b}'
    ||| c == '\u{c}'
    ||| c == '\r'
    ||| c == '\u{85}'
    ||| c == '\u{a0}'
    ||| c == '\u{1680}'
    ||| c == '\u{2000}'
    ||| c == '\u{2001}'
    ||| c == '\u{2002}'
    ||| c == '\u{2003}'
    ||| c == '\u{2004}'
    ||| c == '\u{2005}'
    ||| c == '\u{2006}'
    ||| c == '\u{2007}'
    ||| c == '\u{2008}'
    ||| c == '\u{2009}'
    ||| c == '\u{200a}'
    ||| c == '\u{2028}'
    ||| c == '\u{2029}'
    ||| c == '\u{202f}'
    ||| c == '\u{205f}'
    ||| c == '\u{3000}'
}

pub fn is_ws_char(c: char) -> (r: bool)
    ensures
        r == is_ws(c),
{
    c == ' ' || c == '\t' || c == '\n' || c == '\u{b}' || c == '\u{c}' || c == '\r'
        || c == '\u{85}' || c == '\u{a0}' || c == '\u{1680}' || c == '\u{2000}' || c == '\u{2001}'
        || c == '\u{2002}' || c == '\u{2003}' || c == '\u{2004}' || c == '\u{2005}'
        || c == '\u{2006}' || c == '\u{2007}' || c == '\u{2008}' || c == '\u{2009}'
        || c == '\u{200a}' || c == '\u{2028}' || c == '\u{2029}' || c == '\u{202f}'
        || c == '\u{205f}' || c == '\u{3000}'
}

/// The text with its leading whitespace removed.
pub open spec fn trim_start_text(s: Seq<char>) -> Seq<char>
    decreases s.len(),
{
    if s.len() > 0 && is_ws(s[0]) {
        trim_start_text(s.drop_first())
    } else {
        s
    }
}

/// The text with its trailing whitespace removed.
pub open spec fn trim_end_text(s: Seq<char>) -> Seq<char>
    decreases s.len(),
{
    if s.len() > 0 && is_ws(s.last()) {
        trim_end_text(s.drop_last())
    } else {
        s
    }
}

/// The four-way trim lattice: apply none, leading, trailing, or both
/// trims, by the two flags.
pub open spec fn trim_text(s: Seq<char>, start: bool, end: bool) -> Seq<char> {
    let a = if start {
        trim_start_text(s)
    } else {
        s
    };
    if end {
        trim_end_text(a)
    } else {
        a
    }
}

/// Trims `s` by the two flags.
pub fn trim_string(s: &str, do_start: bool, do_end: bool) -> (r: String)
    ensures
        r@ == trim_text(s@, do_start, do_end),
{
    let n = s.unicode_len();
    let mut lo: usize = 0;
    proof {
        assert(s@.skip(0) =~= s@);
    }
    if do_start {
        while lo < n && is_ws_char(s.get_char(lo))
            invariant
                0 <= lo <= n,
                trim_start_text(s@) == trim_start_text(s@.skip(lo as int)),
            decreases n - lo,
        {
            proof {
                let t = s@.skip(lo as int);
                assert(t[0] == s@[lo as int]);
                assert(t.drop_first() =~= s@.skip(lo + 1));
            }
            lo = lo + 1;
        }
        proof {
            let t = s@.skip(lo as int);
            if t.len() > 0 {
                assert(t[0] == s@[lo as int]);
            }
            assert(trim_start_text(t) == t);
        }
    }
    let mut hi: usize = n;
    proof {
        assert(s@.skip(lo as int) =~= s@.subrange(lo as int, n as int));
    }
    if do_end {
        while hi > lo && is_ws_char(s.get_char(hi - 1))
            invariant
                lo <= hi <= n,
                trim_end_text(s@.subrange(lo as int, n as int)) == trim_end_text(
                    s@.subrange(lo as int, hi as int),
                ),
            decreases hi,
        {
            proof {
                let t = s@.subrange(lo as int, hi as int);
                assert(t.last() == s@[hi - 1]);
                assert(t.drop_last() =~= s@.subrange(lo as int, hi - 1));
            }
            hi = hi - 1;
        }
        proof {
            let t = s@.subrange(lo as int, hi as int);
            if t.len() > 0 {
                assert(t.last() == s@[hi - 1]);
            }
            assert(trim_end_text(t) == t);
        }
    }
    let piece = s.substring_char(lo, hi);
    let r = String::from_str(piece);
    proof {
        if !do_start {
            assert(s@.subrange(0, n as int) =~= s@);
        }
        assert(r@ == trim_text(s@, do_start, do_end));
    }
    r
}

/// What the leading trim does, stated shape-wise: the result is a suffix,
/// everything dropped was whitespace, and the result does not begin with
/// whitespace.
pub proof fn lemma_trim_start_shape(s: Seq<char>)
    ensures
        trim_start_text(s).len() <= s.len(),
        trim_start_text(s) == s.skip(s.len() - trim_start_text(s).len()),
        forall|i: int| 0 <= i < s.len() - trim_start_text(s).len() ==> is_ws(#[trigger] s[i]),
        trim_start_text(s).len() > 0 ==> !is_ws(trim_start_text(s)[0]),
    decreases s.len(),
{
    if s.len() > 0 && is_ws(s[0]) {
        lemma_trim_start_shape(s.drop_first());
        let t = trim_start_text(s);
        assert(s.drop_first().skip(s.drop_first().len() - t.len()) =~= s.skip(s.len() - t.len()));
        assert forall|i: int| 0 <= i < s.len() - t.len() implies is_ws(#[trigger] s[i]) by {
            if i > 0 {
                assert(s[i] == s.drop_first()[i - 1]);
            }
        }
    } else {
        assert(trim_start_text(s) =~= s.skip(0));
    }
}

/// What the trailing trim does, stated shape-wise: the result is a
/// prefix, everything dropped was whitespace, and the result does not end
/// with whitespace.
pub proof fn lemma_trim_end_shape(s: Seq<char>)
    ensures
        trim_end_text(s).len() <= s.len(),
        trim_end_text(s) == s.take(trim_end_text(s).len() as int),
        forall|i: int| trim_end_text(s).len() <= i < s.len() ==> is_ws(#[trigger] s[i]),
        trim_end_text(s).len() > 0 ==> !is_ws(trim_end_text(s).last()),
    decreases s.len(),
{
    if s.len() > 0 && is_ws(s.last()) {
        lemma_trim_end_shape(s.drop_last());
        let t = trim_end_text(s);
        assert(s.drop_last().take(t.len() as int) =~= s.take(t.len() as int));
        assert forall|i: int| t.len() <= i < s.len() implies is_ws(#[trigger] s[i]) by {
            if i < s.len() - 1 {
                assert(s[i] == s.drop_last()[i]);
            }
        }
    } else {
        assert(trim_end_text(s) =~= s.take(s.len() as int));
    }
}

} // verus!
