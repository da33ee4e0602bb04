//! Small verified helpers for building and comparing strings.

use vstd::prelude::*;
use vstd::string::StrSliceExecFns;
use vstd::string::StringExecFns;

verus! {

/// Relies on `String::push`, which appends the given character to the
/// end of the string.
#[verifier::external_body]
pub(crate) fn push_char(s: &mut String, c: char)
    ensures
        final(s)@ == old(s)@.push(c),
{
    s.push(c);
}

/// Character-for-character string comparison.
pub(crate) fn str_eq(a: &str, b: &str) -> (r: bool)
    ensures
        r == (a@ == b@),
{
    let la: usize = a.unicode_len();
    let lb: usize = b.unicode_len();
    if la != lb {
        return false;
    }
    let mut i: usize = 0;
    while i < la
        invariant
            la == a@.len(),
            la == b@.len(),
            i <= la,
            forall|j: int| 0 <= j < i ==> a@[j] == b@[j],
        decreases la - i,
    {
        let ca: char = a.get_char(i);
        let cb: char = b.get_char(i);
        if ca != cb {
            return false;
        }
        i += 1;
    }
    proof {
        assert(a@ =~= b@);
    }
    true
}

/// The parts joined into one string, with `sep` between neighbours.
pub open spec fn spec_join(parts: Seq<Seq<char>>, sep: Seq<char>) -> Seq<char>
    decreases parts.len(),
{
    if parts.len() == 0 {
        Seq::empty()
    } else if parts.len() == 1 {
        parts[0]
    } else {
        parts[0] + sep + spec_join(parts.drop_first(), sep)
    }
}

/// Joins the parts from index `i` on, with `sep` between neighbours.
fn join_from(parts: &Vec<String>, i: usize, sep: &str) -> (r: String)
    requires
        i <= parts.len(),
    ensures
        r@ == spec_join(parts.deep_view().skip(i as int), sep@),
    decreases parts.len() - i,
{
    if i == parts.len() {
        proof {
            assert(parts.deep_view().skip(i as int) =~= Seq::<Seq<char>>::empty());
        }
        String::new()
    } else if i + 1 == parts.len() {
        let r: String = parts[i].clone();
        proof {
            assert(parts.deep_view().skip(i as int).len() == 1);
            assert(parts.deep_view().skip(i as int)[0] == parts@[i as int]@);
        }
        r
    } else {
        let mut r: String = parts[i].clone();
        r.append(sep);
        let rest: String = join_from(parts, i + 1, sep);
        r.append(rest.as_str());
        proof {
            let tail = parts.deep_view().skip(i as int);
            assert(tail[0] == parts@[i as int]@);
            assert(tail.drop_first() =~= parts.deep_view().skip(i as int + 1));
        }
        r
    }
}

/// Joins the parts with `sep` between neighbours.
pub(crate) fn join_with(parts: &Vec<String>, sep: &str) -> (r: String)
    ensures
        r@ == spec_join(parts.deep_view(), sep@),
{
    let r: String = join_from(parts, 0, sep);
    proof {
        assert(parts.deep_view().skip(0) =~= parts.deep_view());
    }
    r
}

} // verus!
