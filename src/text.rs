//! Small string and character-sequence helpers shared by the other modules.

use vstd::prelude::*;
use vstd::std_specs::iter::IteratorSpec;

verus! {

broadcast use vstd::string::group_string_axioms;

/// Appends one character to a string.
///
/// Relies on `String::push`: the character is added at the end.
#[verifier::external_body]
pub(crate) fn push_char(s: &mut String, c: char)
    ensures
        final(s)@ == old(s)@.push(c),
{
    s.push(c)
}

/// The characters of a string, in order.
pub fn to_chars(s: &str) -> (r: Vec<char>)
    ensures
        r@ == s@,
{
    let mut r: Vec<char> = Vec::new();
    let mut it = s.chars();
    let ghost all = s@;
    loop
        invariant
            it.remaining() == all.subrange(r@.len() as int, all.len() as int),
            it.obeys_prophetic_iter_laws(),
            r@ == all.subrange(0, r@.len() as int),
            r@.len() <= all.len(),
            all == s@,
        ensures
            r@ == s@,
        decreases all.len() - r@.len(),
    {
        match it.next() {
            Some(c) => {
                r.push(c);
                assert(r@ =~= all.subrange(0, r@.len() as int));
            },
            None => {
                assert(r@ =~= all);
                break;
            },
        }
    }
    r
}

/// Builds a string from a slice of characters.
pub fn from_chars(v: &[char]) -> (r: String)
    ensures
        r@ == v@,
{
    let mut r = String::new();
    for i in 0..v.len()
        invariant
            r@ == v@.subrange(0, i as int),
    {
        push_char(&mut r, v[i]);
        assert(v@.subrange(0, i + 1) == v@.subrange(0, i as int).push(v@[i as int]));
    }
    assert(v@.subrange(0, v@.len() as int) == v@);
    r
}

/// The characters of `cs` from `a` up to `b` as a string.
pub fn sub_string(cs: &Vec<char>, a: usize, b: usize) -> (r: String)
    requires
        a <= b <= cs@.len(),
    ensures
        r@ == cs@.subrange(a as int, b as int),
{
    let mut r = String::new();
    let mut i = a;
    while i < b
        invariant
            a <= i <= b <= cs@.len(),
            r@ == cs@.subrange(a as int, i as int),
        decreases b - i,
    {
        push_char(&mut r, cs[i]);
        i += 1;
        assert(r@ =~= cs@.subrange(a as int, i as int));
    }
    r
}

/// Whether `p` is a prefix of `s`.
pub open spec fn is_prefix(p: Seq<char>, s: Seq<char>) -> bool {
    p.len() <= s.len() && s.subrange(0, p.len() as int) == p
}

/// Executable prefix test on strings.
pub fn starts_with(s: &str, p: &str) -> (r: bool)
    ensures
        r == is_prefix(p@, s@),
{
    let sv = to_chars(s);
    let pv = to_chars(p);
    if pv.len() > sv.len() {
        return false;
    }
    let mut i: usize = 0;
    while i < pv.len()
        invariant
            i <= pv@.len() <= sv@.len(),
            sv@ == s@,
            pv@ == p@,
            forall|j: int| 0 <= j < i ==> sv@[j] == pv@[j],
        decreases pv@.len() - i,
    {
        if sv[i] != pv[i] {
            assert(sv@.subrange(0, pv@.len() as int)[i as int] != pv@[i as int]);
            return false;
        }
        i += 1;
    }
    assert(sv@.subrange(0, pv@.len() as int) =~= pv@);
    true
}

/// Executable equality of two string slices.
pub fn str_eq(a: &str, b: &str) -> (r: bool)
    ensures
        r == (a@ == b@),
{
    let av = to_chars(a);
    let bv = to_chars(b);
    if av.len() != bv.len() {
        return false;
    }
    let mut i: usize = 0;
    while i < av.len()
        invariant
            i <= av@.len() == bv@.len(),
            av@ == a@,
            bv@ == b@,
            forall|j: int| 0 <= j < i ==> av@[j] == bv@[j],
        decreases av@.len() - i,
    {
        if av[i] != bv[i] {
            assert(av@[i as int] != bv@[i as int]);
            return false;
        }
        i += 1;
    }
    assert(av@ =~= bv@);
    true
}

/// Concatenation of a sequence of character sequences.
pub open spec fn concat(parts: Seq<Seq<char>>) -> Seq<char>
    decreases parts.len(),
{
    if parts.len() == 0 {
        Seq::empty()
    } else {
        concat(parts.drop_last()) + parts.last()
    }
}

/// Joins lines with a newline between consecutive ones.
pub open spec fn join_lines(lines: Seq<Seq<char>>) -> Seq<char>
    decreases lines.len(),
{
    if lines.len() == 0 {
        Seq::empty()
    } else if lines.len() == 1 {
        lines[0]
    } else {
        join_lines(lines.drop_last()).push('\n') + lines.last()
    }
}

/// The lines of a text: the pieces between newline characters. A text
/// without newlines is one line, the empty text included.
pub open spec fn split_lines(s: Seq<char>) -> Seq<Seq<char>>
    decreases s.len(),
{
    if s.len() == 0 {
        seq![Seq::empty()]
    } else {
        let rest = split_lines(s.drop_last());
        if s.last() == '\n' {
            rest.push(Seq::empty())
        } else {
            rest.update(rest.len() - 1, rest.last().push(s.last()))
        }
    }
}

/// Splits a text into its lines at each newline character.
pub fn lines_of(s: &str) -> (r: Vec<String>)
    ensures
        r@.len() == split_lines(s@).len(),
        forall|i: int| 0 <= i < r@.len() ==> #[trigger] r@[i]@ == split_lines(s@)[i],
{
    let cs = to_chars(s);
    let mut r: Vec<String> = Vec::new();
    let mut cur: Vec<char> = Vec::new();
    let mut i: usize = 0;
    while i < cs.len()
        invariant
            i <= cs@.len(),
            cs@ == s@,
            split_lines(cs@.subrange(0, i as int)).len() == r@.len() + 1,
            forall|k: int|
                0 <= k < r@.len() ==> #[trigger] r@[k]@ == split_lines(
                    cs@.subrange(0, i as int),
                )[k],
            cur@ == split_lines(cs@.subrange(0, i as int)).last(),
        decreases cs@.len() - i,
    {
        let ghost pre = cs@.subrange(0, i as int);
        let ghost nxt = cs@.subrange(0, i + 1);
        assert(nxt.drop_last() == pre);
        assert(nxt.last() == cs@[i as int]);
        if cs[i] == '\n' {
            let line = from_chars(cur.as_slice());
            r.push(line);
            cur = Vec::new();
        } else {
            cur.push(cs[i]);
        }
        i += 1;
    }
    assert(cs@.subrange(0, cs@.len() as int) == cs@);
    let last = from_chars(cur.as_slice());
    r.push(last);
    r
}

/// Joins strings with a newline between consecutive ones.
pub fn join_with_newline(lines: &Vec<String>) -> (r: String)
    ensures
        r@ == join_lines(lines@.map_values(|l: String| l@)),
{
    let ghost views = lines@.map_values(|l: String| l@);
    let mut r = String::new();
    let mut i: usize = 0;
    while i < lines.len()
        invariant
            i <= lines@.len(),
            views == lines@.map_values(|l: String| l@),
            r@ == join_lines(views.subrange(0, i as int)),
        decreases lines@.len() - i,
    {
        let ghost pre = views.subrange(0, i as int);
        let ghost nxt = views.subrange(0, i + 1);
        assert(nxt.drop_last() == pre);
        if i > 0 {
            push_char(&mut r, '\n');
        }
        r.append(lines[i].as_str());
        i += 1;
    }
    assert(views.subrange(0, lines@.len() as int) == views);
    r
}

} // verus!

verus! {

/// Joining lines with newlines.
pub trait JoinWithNewline {
    spec fn lines_view(&self) -> Seq<Seq<char>>;

    /// The lines with a newline between consecutive ones.
    fn join_with_newline(&self) -> (r: String)
        ensures
            r@ == join_lines(self.lines_view()),
    ;
}

impl JoinWithNewline for Vec<String> {
    open spec fn lines_view(&self) -> Seq<Seq<char>> {
        self@.map_values(|l: String| l@)
    }

    fn join_with_newline(&self) -> (r: String) {
        join_with_newline(self)
    }
}

/// Lines joined with newlines, or the first error among them.
pub open spec fn join_results<E>(rs: Seq<Result<Seq<char>, E>>, m: nat) -> Result<Seq<char>, E>
    decreases m,
{
    if m == 0 {
        Ok(Seq::empty())
    } else {
        match join_results(rs, (m - 1) as nat) {
            Err(e) => Err(e),
            Ok(acc) => match rs[m - 1] {
                Err(e) => Err(e),
                Ok(x) => Ok(
                    if m == 1 {
                        x
                    } else {
                        acc.push('\n') + x
                    },
                ),
            },
        }
    }
}

proof fn lemma_join_results_err<E>(rs: Seq<Result<Seq<char>, E>>, m: nat, n: nat)
    requires
        m <= n,
        join_results(rs, m) is Err,
    ensures
        join_results(rs, n) == join_results(rs, m),
    decreases n - m,
{
    if m < n {
        lemma_join_results_err(rs, m, (n - 1) as nat);
    }
}

/// Joining lines that may have failed: the first failure, or the lines
/// joined with newlines.
pub trait JoinResultsWithNewline<E> {
    spec fn results_view(&self) -> Seq<Result<Seq<char>, E>>;

    /// The first error, or every line with a newline between consecutive ones.
    fn join_results_with_newline(&self) -> (r: Result<String, E>)
        ensures
            match join_results(self.results_view(), self.results_view().len()) {
                Ok(v) => r matches Ok(s) && s@ == v,
                Err(e) => r == Err::<String, E>(e),
            },
    ;
}

impl<E: Copy> JoinResultsWithNewline<E> for Vec<Result<String, E>> {
    open spec fn results_view(&self) -> Seq<Result<Seq<char>, E>> {
        self@.map_values(
            |x: Result<String, E>|
                match x {
                    Ok(s) => Ok::<Seq<char>, E>(s@),
                    Err(e) => Err::<Seq<char>, E>(e),
                },
        )
    }

    fn join_results_with_newline(&self) -> (r: Result<String, E>) {
        let ghost rs = self.results_view();
        let mut out = String::new();
        let mut i: usize = 0;
        while i < self.len()
            invariant
                rs == self.results_view(),
                i <= self@.len(),
                join_results(rs, i as nat) == Ok::<Seq<char>, E>(out@),
            decreases self@.len() - i,
        {
            match &self[i] {
                Ok(line) => {
                    if i > 0 {
                        push_char(&mut out, '\n');
                    }
                    out.append(line.as_str());
                },
                Err(e) => {
                    proof {
                        lemma_join_results_err(rs, (i + 1) as nat, rs.len());
                    }
                    return Err(*e);
                },
            }
            i += 1;
        }
        Ok(out)
    }
}

/// The extended grapheme clusters of a text, in order.
pub uninterp spec fn grapheme_clusters(s: Seq<char>) -> Seq<Seq<char>>;

/// Relies on `unicode_segmentation::UnicodeSegmentation::graphemes` with
/// extended clusters: the clusters depend on the characters alone, they
/// partition the text (in order, they make it up again), and each holds at
/// least one character.
#[verifier::external_body]
pub(crate) fn graphemes(s: &str) -> (r: Vec<String>)
    ensures
        r@.map_values(|g: String| g@) == grapheme_clusters(s@),
        concat(r@.map_values(|g: String| g@)) == s@,
        forall|i: int| 0 <= i < r@.len() ==> (#[trigger] r@[i])@.len() > 0,
        r@.len() <= s@.len(),
{
    unicode_segmentation::UnicodeSegmentation::graphemes(s, true).map(|g| g.to_owned()).collect()
}

} // verus!
