use crate::error::SpeakError;
use crate::text::is_white;
use crate::text::white_char;
use vstd::prelude::*;
use vstd::std_specs::cmp::PartialEqSpec;
use vstd::string::StrSliceExecFns;
use vstd::string::StringExecFns;

verus! {

/// Mathematical image of a `Name`: its two components as character
/// sequences.
pub ghost struct NameView {
    pub first: Seq<char>,
    pub last: Seq<char>,
}

/// A person name split into a "first" part and a "last" part. Both fields
/// are always populated, possibly with the empty string; parsing never
/// fails.
#[derive(Debug, Eq)]
pub struct Name {
    first: String,
    last: String,
}

impl View for Name {
    type V = NameView;

    closed spec fn view(&self) -> NameView {
        NameView { first: self.first@, last: self.last@ }
    }
}

impl PartialEq for Name {
    fn eq(&self, other: &Name) -> bool {
        self.first == other.first && self.last == other.last
    }
}

impl vstd::std_specs::cmp::PartialEqSpecImpl for Name {
    open spec fn obeys_eq_spec() -> bool {
        true
    }

    open spec fn eq_spec(&self, other: &Name) -> bool {
        self@ == other@
    }
}

/// The tokens of `s` from position `i` on, given the partial token `cur`
/// read so far and the tokens `acc` already finished: a run of
/// `White_Space` characters ends the partial token, every other character
/// extends it, and empty fragments are discarded.
pub open spec fn tokens_from(s: Seq<char>, i: int, cur: Seq<char>, acc: Seq<Seq<char>>) -> Seq<
    Seq<char>,
>
    decreases s.len() - i,
    when 0 <= i <= s.len()
{
    if i == s.len() {
        if cur.len() > 0 {
            acc.push(cur)
        } else {
            acc
        }
    } else if is_white(s[i]) {
        if cur.len() > 0 {
            tokens_from(s, i + 1, Seq::empty(), acc.push(cur))
        } else {
            tokens_from(s, i + 1, cur, acc)
        }
    } else {
        tokens_from(s, i + 1, cur.push(s[i]), acc)
    }
}

/// The whitespace-separated tokens of `s`, in order, without empty
/// fragments.
pub open spec fn tokens(s: Seq<char>) -> Seq<Seq<char>> {
    tokens_from(s, 0, Seq::empty(), Seq::empty())
}

/// The given sequences rejoined with a single space between neighbours.
pub open spec fn join_with_spaces(ts: Seq<Seq<char>>) -> Seq<char>
    decreases ts.len(),
{
    if ts.len() == 0 {
        Seq::empty()
    } else if ts.len() == 1 {
        ts[0]
    } else {
        join_with_spaces(ts.drop_last()) + seq![' '] + ts.last()
    }
}

/// What parsing a free-text name returns: with no token both components
/// are empty, with one token it becomes `first`, and otherwise the last
/// token becomes `last` while the earlier tokens are rejoined with single
/// spaces into `first`.
pub open spec fn spec_parse_name(s: Seq<char>) -> NameView {
    let ts = tokens(s);
    if ts.len() == 0 {
        NameView { first: Seq::empty(), last: Seq::empty() }
    } else if ts.len() == 1 {
        NameView { first: ts[0], last: Seq::empty() }
    } else {
        NameView { first: join_with_spaces(ts.drop_last()), last: ts.last() }
    }
}

/// The partial token under the cursor: the characters from `start` to `i`
/// while one is being read, and nothing otherwise.
pub open spec fn cur_token(s: Seq<char>, in_tok: bool, start: int, i: int) -> Seq<char> {
    if in_tok {
        s.subrange(start, i)
    } else {
        Seq::empty()
    }
}

/// Splits `s` into its whitespace-separated tokens.
pub fn split_white(s: &str) -> (toks: Vec<String>)
    ensures
        toks.deep_view() == tokens(s@),
{
    let n = s.unicode_len();
    let mut toks: Vec<String> = Vec::new();
    let mut i: usize = 0;
    let mut start: usize = 0;
    let mut in_tok: bool = false;
    proof {
        assert(toks.deep_view() =~= Seq::<Seq<char>>::empty());
    }
    while i < n
        invariant
            n == s@.len(),
            i <= n,
            in_tok ==> start < i,
            tokens(s@) == tokens_from(
                s@,
                i as int,
                cur_token(s@, in_tok, start as int, i as int),
                toks.deep_view(),
            ),
        decreases n - i,
    {
        let ghost cur0 = cur_token(s@, in_tok, start as int, i as int);
        let ghost dv0 = toks.deep_view();
        let c = s.get_char(i);
        if white_char(c) {
            if in_tok {
                let tok = s.substring_char(start, i).to_owned();
                let ghost old_dv = toks.deep_view();
                toks.push(tok);
                proof {
                    assert(toks.deep_view() =~= old_dv.push(s@.subrange(start as int, i as int)));
                    assert(tokens_from(s@, i as int, cur0, dv0) == tokens_from(
                        s@,
                        i as int + 1,
                        Seq::empty(),
                        dv0.push(cur0),
                    ));
                }
                in_tok = false;
            } else {
                proof {
                    assert(tokens_from(s@, i as int, cur0, dv0) == tokens_from(
                        s@,
                        i as int + 1,
                        cur0,
                        dv0,
                    ));
                }
            }
        } else {
            if !in_tok {
                start = i;
                in_tok = true;
            }
            proof {
                assert(s@.subrange(start as int, i as int) =~= cur0);
                assert(cur0.push(s@[i as int]) =~= s@.subrange(start as int, i as int + 1));
                assert(tokens_from(s@, i as int, cur0, dv0) == tokens_from(
                    s@,
                    i as int + 1,
                    cur0.push(s@[i as int]),
                    dv0,
                ));
            }
        }
        i += 1;
    }
    if in_tok {
        let tok = s.substring_char(start, n).to_owned();
        let ghost old_dv = toks.deep_view();
        toks.push(tok);
        proof {
            assert(toks.deep_view() =~= old_dv.push(s@.subrange(start as int, n as int)));
        }
    }
    toks
}

impl Name {
    /// Builds a name directly from its two components.
    pub fn new(first: &str, last: &str) -> (n: Name)
        ensures
            n@ == (NameView { first: first@, last: last@ }),
    {
        Name { first: first.to_owned(), last: last.to_owned() }
    }

    /// Splits a free-text name on runs of whitespace. Never fails: with no
    /// token both components are empty, with one token it becomes `first`,
    /// and otherwise the last token becomes `last` while the earlier
    /// tokens, rejoined with single spaces, become `first`.
    pub fn parse(s: &str) -> (n: Name)
        ensures
            n@ == spec_parse_name(s@),
    {
        let toks = split_white(s);
        proof {
            reveal_strlit("");
            assert(""@ =~= Seq::<char>::empty());
        }
        if toks.len() == 0 {
            Name::new("", "")
        } else if toks.len() == 1 {
            Name::new(toks[0].as_str(), "")
        } else {
            let ghost dv = toks.deep_view();
            let last_idx = toks.len() - 1;
            let mut first = String::new();
            let mut k: usize = 0;
            proof {
                reveal_strlit(" ");
                assert(" "@ =~= seq![' ']);
            }
            while k < last_idx
                invariant
                    toks.deep_view() == dv,
                    dv == tokens(s@),
                    " "@ =~= seq![' '],
                    toks.len() >= 2,
                    last_idx == toks.len() - 1,
                    k <= last_idx,
                    k == 0 ==> first@ == Seq::<char>::empty(),
                    k >= 1 ==> first@ == join_with_spaces(dv.subrange(0, k as int)),
                decreases last_idx - k,
            {
                if k > 0 {
                    first.append(" ");
                }
                first.append(toks[k].as_str());
                proof {
                    if k == 0 {
                        assert(dv.subrange(0, 1)[0] == dv[0]);
                        assert(first@ =~= join_with_spaces(dv.subrange(0, 1)));
                    } else {
                        assert(dv.subrange(0, k as int + 1).drop_last() =~= dv.subrange(
                            0,
                            k as int,
                        ));
                        assert(dv.subrange(0, k as int + 1).last() == dv[k as int]);
                    }
                }
                k += 1;
            }
            proof {
                assert(dv.subrange(0, last_idx as int) =~= dv.drop_last());
            }
            Name::new(first.as_str(), toks[last_idx].as_str())
        }
    }
}

/// Law: a string whose whitespace split has exactly one token parses to
/// that token as `first` and an empty `last`.
pub proof fn lemma_parse_name_single_token(s: Seq<char>)
    requires
        tokens(s).len() == 1,
    ensures
        spec_parse_name(s).first == tokens(s)[0],
        spec_parse_name(s).last == Seq::<char>::empty(),
{
}

/// Law: a string with exactly two tokens parses to the first as `first`
/// and the second as `last`.
pub proof fn lemma_parse_name_two_tokens(s: Seq<char>)
    requires
        tokens(s).len() == 2,
    ensures
        spec_parse_name(s).first == tokens(s)[0],
        spec_parse_name(s).last == tokens(s)[1],
{
    let ts = tokens(s);
    assert(ts.drop_last().len() == 1);
    assert(ts.drop_last()[0] == ts[0]);
}

/// Law: a string with two or more tokens parses to the last token as
/// `last`, and all earlier tokens, rejoined with single spaces, as
/// `first`; a three-token string in particular gets its first two tokens
/// joined by one space.
pub proof fn lemma_parse_name_many_tokens(s: Seq<char>)
    requires
        tokens(s).len() >= 2,
    ensures
        spec_parse_name(s).first == join_with_spaces(tokens(s).drop_last()),
        spec_parse_name(s).last == tokens(s).last(),
        tokens(s).len() == 3 ==> spec_parse_name(s).first == tokens(s)[0] + seq![' '] + tokens(
            s,
        )[1],
{
    let ts = tokens(s);
    if ts.len() == 3 {
        let head = ts.drop_last();
        assert(head.len() == 2);
        assert(head.drop_last().len() == 1);
        assert(head.drop_last()[0] == ts[0]);
        assert(head.last() == ts[1]);
        assert(join_with_spaces(head.drop_last()) == head.drop_last()[0]);
        assert(join_with_spaces(head) == join_with_spaces(head.drop_last()) + seq![' ']
            + head.last());
    }
}

/// Law: name parsing is stateless — the result is a function of the input
/// characters alone, so two parses of the same input are equal names.
pub proof fn lemma_parse_name_stateless(s: Seq<char>, n1: Name, n2: Name)
    requires
        n1@ == spec_parse_name(s),
        n2@ == spec_parse_name(s),
    ensures
        n1.eq_spec(&n2),
{
}

impl core::str::FromStr for Name {
    type Err = SpeakError;

    fn from_str(s: &str) -> Result<Name, SpeakError> {
        Ok(Name::parse(s))
    }
}

} // verus!
