//! Tokenization: an incantation is split into whitespace-delimited tokens.

use vstd::prelude::*;
use vstd::string::StrSliceExecFns;
use crate::text::push_char;

verus! {

/// Whether `c` has the Unicode `White_Space` property.
pub open spec fn is_space(c: char) -> bool {
    c == ' ' || c == '\t' || c == '\n' || c == '\u{0b}' || c == '\u{0c}' || c == '\r' || c
        == '\u{85}' || c == '\u{a0}' || c == '\u{1680}' || ('\u{2000}' <= c && c <= '\u{200a}') || c
        == '\u{2028}' || c == '\u{2029}' || c == '\u{202f}' || c == '\u{205f}' || c == '\u{3000}'
}

fn is_space_char(c: char) -> (r: bool)
    ensures
        r == is_space(c),
{
    c == ' ' || c == '\t' || c == '\n' || c == '\u{0b}' || c == '\u{0c}' || c == '\r' || c
        == '\u{85}' || c == '\u{a0}' || c == '\u{1680}' || ('\u{2000}' <= c && c <= '\u{200a}') || c
        == '\u{2028}' || c == '\u{2029}' || c == '\u{202f}' || c == '\u{205f}' || c == '\u{3000}'
}

/// The tokens of `s`, given that the characters of `cur` have been read
/// already and form the start of the current token.
pub open spec fn spec_tokenize_acc(s: Seq<char>, cur: Seq<char>) -> Seq<Seq<char>>
    decreases s.len(),
{
    if s.len() == 0 {
        if cur.len() == 0 {
            Seq::empty()
        } else {
            seq![cur]
        }
    } else if is_space(s[0]) {
        if cur.len() == 0 {
            spec_tokenize_acc(s.drop_first(), Seq::empty())
        } else {
            seq![cur] + spec_tokenize_acc(s.drop_first(), Seq::empty())
        }
    } else {
        spec_tokenize_acc(s.drop_first(), cur.push(s[0]))
    }
}

/// The maximal whitespace-free runs of `s`, in order.
pub open spec fn spec_tokenize(s: Seq<char>) -> Seq<Seq<char>> {
    spec_tokenize_acc(s, Seq::empty())
}

/// Splits the input into whitespace-delimited tokens. No quoting or
/// escaping is recognized; a run of whitespace counts as one boundary.
pub fn tokenize(input: &str) -> (tokens: Vec<String>)
    ensures
        tokens.deep_view() == spec_tokenize(input@),
{
    let len: usize = input.unicode_len();
    let mut acc: Vec<String> = Vec::new();
    let mut cur: String = String::new();
    let mut i: usize = 0;
    proof {
        assert(input@.skip(0) =~= input@);
    }
    while i < len
        invariant
            i <= len,
            len == input@.len(),
            spec_tokenize(input@) == acc.deep_view() + spec_tokenize_acc(
                input@.skip(i as int),
                cur@,
            ),
        decreases len - i,
    {
        let c: char = input.get_char(i);
        proof {
            assert(input@.skip(i as int)[0] == input@[i as int]);
            assert(input@.skip(i as int).drop_first() =~= input@.skip(i as int + 1));
        }
        if is_space_char(c) {
            if !cur.as_str().is_empty() {
                let ghost pre = acc.deep_view();
                let ghost cv = cur@;
                let ghost rest = spec_tokenize_acc(input@.skip(i as int + 1), Seq::empty());
                acc.push(cur);
                cur = String::new();
                proof {
                    assert(acc.deep_view() =~= pre.push(cv));
                    assert((pre + (seq![cv] + rest)) =~= (pre.push(cv) + rest));
                }
            } else {
                proof {
                    assert(cur@ =~= Seq::<char>::empty());
                }
            }
        } else {
            push_char(&mut cur, c);
        }
        i += 1;
    }
    proof {
        assert(input@.skip(len as int) =~= Seq::<char>::empty());
    }
    if !cur.as_str().is_empty() {
        let ghost pre = acc.deep_view();
        let ghost cv = cur@;
        acc.push(cur);
        proof {
            assert(acc.deep_view() =~= pre.push(cv));
            assert(pre + seq![cv] =~= pre.push(cv));
        }
    } else {
        proof {
            assert(acc.deep_view() + Seq::<Seq<char>>::empty() =~= acc.deep_view());
        }
    }
    acc
}

} // verus!
