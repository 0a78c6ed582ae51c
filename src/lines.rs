use vstd::prelude::*;

verus! {

/// Position of the first line feed in `s`, or `s.len()` when there is none.
pub open spec fn line_end(s: Seq<char>) -> int
    decreases s.len(),
{
    if s.len() == 0 || s[0] == '\n' {
        0
    } else {
        1 + line_end(s.drop_first())
    }
}

/// `line` without one carriage return at its end, if it has one.
pub open spec fn strip_cr(line: Seq<char>) -> Seq<char> {
    if line.len() > 0 && line.last() == '\r' {
        line.drop_last()
    } else {
        line
    }
}

/// The lines of `s`: pieces ended by `\n` or `\r\n`, without their ending.
/// The last line needs no ending, and an ending at the very end of `s` does
/// not start an empty line after it.
pub open spec fn lines_of(s: Seq<char>) -> Seq<Seq<char>>
    decreases s.len(),
{
    let k = line_end(s);
    if s.len() == 0 {
        seq![]
    } else if 0 <= k < s.len() {
        seq![strip_cr(s.take(k))] + lines_of(s.skip(k + 1))
    } else {
        seq![s]
    }
}

/// The text of each borrowed string in `v`.
pub open spec fn texts<'a>(v: Seq<&'a str>) -> Seq<Seq<char>> {
    v.map_values(|l: &'a str| l@)
}

/// The first line of `s` ends at `k`: no line feed comes before it, and
/// either a line feed stands there or `s` ends there.
pub proof fn lemma_line_end(s: Seq<char>, k: int)
    requires
        0 <= k <= s.len(),
        forall|j: int| 0 <= j < k ==> s[j] != '\n',
        k == s.len() || s[k] == '\n',
    ensures
        line_end(s) == k,
    decreases k,
{
    if k > 0 {
        lemma_line_end(s.drop_first(), k - 1);
    }
}

/// The characters of `s`, in order.
pub fn chars_of(s: &str) -> (r: Vec<char>)
    ensures
        r@ == s@,
{
    let mut r: Vec<char> = Vec::new();
    for c in it: s.chars()
        invariant
            r@ == it.seq().take(it.index() as int),
    {
        r.push(c);
    }
    r
}

/// Splits `content` into its lines, in order, each borrowed from `content`.
pub fn split_lines<'a>(content: &'a str) -> (r: Vec<&'a str>)
    ensures
        texts(r@) == lines_of(content@),
{
    let cs = chars_of(content);
    let n = cs.len();
    let mut r: Vec<&'a str> = Vec::new();
    let mut start: usize = 0;
    let mut i: usize = 0;
    assert(texts(r@) + lines_of(content@.skip(0)) =~= lines_of(content@)) by {
        assert(content@.skip(0) =~= content@);
    }
    while i < n
        invariant
            cs@ == content@,
            n == cs.len(),
            start <= i <= n,
            forall|j: int| start <= j < i ==> cs@[j] != '\n',
            texts(r@) + lines_of(content@.skip(start as int)) == lines_of(content@),
        decreases n - i,
    {
        if cs[i] == '\n' {
            let ghost rest = content@.skip(start as int);
            proof {
                lemma_line_end(rest, i - start);
            }
            let end = if i > start && cs[i - 1] == '\r' {
                i - 1
            } else {
                i
            };
            let line = content.substring_char(start, end);
            assert(line@ == strip_cr(rest.take(i - start)));
            assert(rest.skip(i - start + 1) =~= content@.skip(i + 1));
            let ghost before = texts(r@);
            r.push(line);
            assert(texts(r@) =~= before.push(line@));
            assert(texts(r@) + lines_of(content@.skip(i + 1)) =~= before + lines_of(rest));
            start = i + 1;
        }
        i += 1;
    }
    let ghost rest = content@.skip(start as int);
    if start < n {
        proof {
            lemma_line_end(rest, n - start);
        }
        let line = content.substring_char(start, n);
        assert(line@ =~= rest);
        let ghost before = texts(r@);
        r.push(line);
        assert(texts(r@) =~= before.push(line@));
        assert(texts(r@) =~= before + lines_of(rest));
    } else {
        assert(texts(r@) =~= texts(r@) + lines_of(rest));
    }
    r
}

} // verus!
