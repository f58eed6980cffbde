use vstd::prelude::*;

verus! {

/// The characters of `s` before its first `c`; all of `s` when `c` does not occur.
pub open spec fn before_char(s: Seq<char>, c: char) -> Seq<char>
    decreases s.len(),
{
    if s.len() == 0 {
        Seq::empty()
    } else if s[0] == c {
        Seq::empty()
    } else {
        seq![s[0]] + before_char(s.drop_first(), c)
    }
}

/// The characters of `s` after its first `c`; empty when `c` does not occur.
pub open spec fn after_char(s: Seq<char>, c: char) -> Seq<char>
    decreases s.len(),
{
    if s.len() == 0 {
        Seq::empty()
    } else if s[0] == c {
        s.drop_first()
    } else {
        after_char(s.drop_first(), c)
    }
}

/// The second field of `s` split at `c`, that is `s.split(c).nth(1)` when `c` occurs in `s`.
pub open spec fn second_field(s: Seq<char>, c: char) -> Seq<char> {
    before_char(after_char(s, c), c)
}

/// `i` is the position of the first `c` in `s`.
pub open spec fn is_first_at(s: Seq<char>, c: char, i: int) -> bool {
    &&& 0 <= i < s.len()
    &&& s[i] == c
    &&& forall|j: int| 0 <= j < i ==> s[j] != c
}

/// `s` begins with `p`.
pub open spec fn starts_with(s: Seq<char>, p: Seq<char>) -> bool {
    p.len() <= s.len() && s.take(p.len() as int) == p
}

/// `s` with every occurrence of the nonempty `pat` replaced by `rep`, the occurrences
/// taken from the left and without overlap (what `str::replace` does).
pub open spec fn replace_all(s: Seq<char>, pat: Seq<char>, rep: Seq<char>) -> Seq<char>
    decreases s.len(),
{
    if s.len() == 0 || pat.len() == 0 {
        s
    } else if starts_with(s, pat) {
        rep + replace_all(s.skip(pat.len() as int), pat, rep)
    } else {
        seq![s[0]] + replace_all(s.drop_first(), pat, rep)
    }
}

/// `pat` occurs somewhere in `s`.
pub open spec fn occurs_in(s: Seq<char>, pat: Seq<char>) -> bool {
    exists|i: int| 0 <= i <= s.len() - pat.len() && #[trigger] s.subrange(i, i + pat.len()) == pat
}

/// The views of a sequence of strings.
pub open spec fn views(v: Seq<String>) -> Seq<Seq<char>> {
    v.map_values(|s: String| s@)
}

pub proof fn lemma_split_at_first(s: Seq<char>, c: char, i: int)
    requires
        is_first_at(s, c, i),
    ensures
        before_char(s, c) == s.take(i),
        after_char(s, c) == s.skip(i + 1),
    decreases s.len(),
{
    if i > 0 {
        lemma_split_at_first(s.drop_first(), c, i - 1);
        assert(s.take(i) =~= seq![s[0]] + s.drop_first().take(i - 1));
        assert(s.skip(i + 1) =~= s.drop_first().skip(i));
    }
}

pub proof fn lemma_split_absent(s: Seq<char>, c: char)
    requires
        !s.contains(c),
    ensures
        before_char(s, c) == s,
        after_char(s, c) == Seq::<char>::empty(),
    decreases s.len(),
{
    if s.len() > 0 {
        assert(s[0] != c);
        assert(!s.drop_first().contains(c)) by {
            if s.drop_first().contains(c) {
                let j = choose|j: int| 0 <= j < s.drop_first().len() && s.drop_first()[j] == c;
                assert(s[j + 1] == c);
            }
        }
        lemma_split_absent(s.drop_first(), c);
        assert(s =~= seq![s[0]] + s.drop_first());
    }
}

/// Appends a character to a string: `String::push`.
#[verifier::external_body]
pub(crate) fn push_char(s: &mut String, c: char)
    ensures
        final(s)@ == old(s)@.push(c),
{
    s.push(c);
}

/// The characters of `s`, in order.
pub fn chars_of(s: &str) -> (r: Vec<char>)
    ensures
        r@ == s@,
{
    let n = s.unicode_len();
    let mut v: Vec<char> = Vec::new();
    let mut i: usize = 0;
    while i < n
        invariant
            n == s@.len(),
            i <= n,
            v@ == s@.take(i as int),
        decreases n - i,
    {
        let c = s.get_char(i);
        v.push(c);
        i += 1;
        assert(v@ =~= s@.take(i as int));
    }
    assert(s@.take(n as int) =~= s@);
    v
}

/// The string made of the characters of `v`.
pub fn string_of(v: &[char]) -> (r: String)
    ensures
        r@ == v@,
{
    let mut s = String::new();
    let n = v.len();
    let mut i: usize = 0;
    while i < n
        invariant
            n == v@.len(),
            i <= n,
            s@ == v@.take(i as int),
        decreases n - i,
    {
        push_char(&mut s, v[i]);
        i += 1;
        assert(s@ =~= v@.take(i as int));
    }
    assert(v@.take(n as int) =~= v@);
    s
}

/// The string that `s` holds.
pub fn owned(s: &str) -> (r: String)
    ensures
        r@ == s@,
{
    String::from_str(s)
}

/// `a` followed by `b`.
pub fn concat(a: &str, b: &str) -> (r: String)
    ensures
        r@ == a@ + b@,
{
    let mut r = String::from_str(a);
    r.append(b);
    r
}

/// Whether `a` and `b` hold the same characters.
pub fn str_eq(a: &str, b: &str) -> (r: bool)
    ensures
        r == (a@ == b@),
{
    let x = String::from_str(a);
    let y = String::from_str(b);
    x == y
}

/// Whether `c` occurs in `s`.
pub fn contains_char(s: &str, c: char) -> (r: bool)
    ensures
        r == s@.contains(c),
{
    let v = chars_of(s);
    let n = v.len();
    let mut i: usize = 0;
    while i < n
        invariant
            n == v@.len(),
            v@ == s@,
            i <= n,
            forall|j: int| 0 <= j < i ==> v@[j] != c,
        decreases n - i,
    {
        if v[i] == c {
            assert(s@[i as int] == c);
            return true;
        }
        i += 1;
    }
    false
}


/// The second field of `s` split at `c`: empty when `c` does not occur in `s`.
pub fn second_field_of(s: &str, c: char) -> (r: String)
    ensures
        r@ == second_field(s@, c),
{
    let v = chars_of(s);
    let n = v.len();
    let mut i: usize = 0;
    while i < n && v[i] != c
        invariant
            n == v@.len(),
            v@ == s@,
            i <= n,
            forall|j: int| 0 <= j < i ==> v@[j] != c,
        decreases n - i,
    {
        i += 1;
    }
    if i == n {
        proof {
            assert(!s@.contains(c)) by {
                if s@.contains(c) {
                    let k = choose|k: int| 0 <= k < s@.len() && s@[k] == c;
                    assert(v@[k] == c);
                }
            }
            lemma_split_absent(s@, c);
            lemma_split_absent(Seq::<char>::empty(), c);
        }
        return String::new();
    }
    proof {
        lemma_split_at_first(s@, c, i as int);
    }
    let start = i + 1;
    let mut j: usize = start;
    let mut out: Vec<char> = Vec::new();
    while j < n && v[j] != c
        invariant
            n == v@.len(),
            v@ == s@,
            start <= j <= n,
            out@ == v@.subrange(start as int, j as int),
            forall|k: int| start <= k < j ==> v@[k] != c,
        decreases n - j,
    {
        out.push(v[j]);
        j += 1;
        assert(out@ =~= v@.subrange(start as int, j as int));
    }
    let ghost rest = s@.skip(start as int);
    proof {
        if j < n {
            assert(is_first_at(rest, c, j - start));
            lemma_split_at_first(rest, c, j - start);
            assert(rest.take(j - start) =~= out@);
        } else {
            assert(!rest.contains(c)) by {
                if rest.contains(c) {
                    let k = choose|k: int| 0 <= k < rest.len() && rest[k] == c;
                    assert(v@[start + k] == c);
                }
            }
            lemma_split_absent(rest, c);
            assert(rest =~= out@);
        }
    }
    string_of(&out)
}

/// Whether `p` occurs in `v` at position `i`.
pub(crate) fn matches_at(v: &Vec<char>, i: usize, p: &Vec<char>) -> (r: bool)
    requires
        i <= v@.len(),
    ensures
        r == starts_with(v@.skip(i as int), p@),
{
    let n = v.len();
    let m = p.len();
    if m > n - i {
        return false;
    }
    let mut k: usize = 0;
    while k < m
        invariant
            n == v@.len(),
            m == p@.len(),
            i + m <= n,
            k <= m,
            forall|j: int| 0 <= j < k ==> v@[i + j] == p@[j],
        decreases m - k,
    {
        if v[i + k] != p[k] {
            assert(v@.skip(i as int).take(m as int)[k as int] != p@[k as int]);
            return false;
        }
        k += 1;
    }
    assert(v@.skip(i as int).take(m as int) =~= p@);
    true
}

/// `s` with every occurrence of the nonempty `pat`, taken from the left and without overlap,
/// replaced by `rep`.
pub fn replace_str(s: &str, pat: &str, rep: &str) -> (r: String)
    requires
        pat@.len() > 0,
    ensures
        r@ == replace_all(s@, pat@, rep@),
{
    let sv = chars_of(s);
    let pv = chars_of(pat);
    let rv = chars_of(rep);
    let n = sv.len();
    let p = pv.len();
    let mut out: Vec<char> = Vec::new();
    let mut i: usize = 0;
    assert(s@.skip(0) =~= s@);
    assert(out@ + replace_all(s@, pat@, rep@) =~= replace_all(s@, pat@, rep@));
    while i < n
        invariant
            n == sv@.len(),
            p == pv@.len(),
            p > 0,
            i <= n,
            sv@ == s@,
            pv@ == pat@,
            rv@ == rep@,
            out@ + replace_all(s@.skip(i as int), pat@, rep@) == replace_all(s@, pat@, rep@),
        decreases n - i,
    {
        let ghost tail = s@.skip(i as int);
        if matches_at(&sv, i, &pv) {
            let ghost before = out@;
            let m = rv.len();
            let mut k: usize = 0;
            while k < m
                invariant
                    m == rv@.len(),
                    k <= m,
                    out@ == before + rv@.take(k as int),
                decreases m - k,
            {
                out.push(rv[k]);
                k += 1;
                assert(out@ =~= before + rv@.take(k as int));
            }
            assert(rv@.take(m as int) =~= rv@);
            assert(tail.skip(p as int) =~= s@.skip(i + p));
            assert(replace_all(tail, pat@, rep@) == rep@ + replace_all(tail.skip(p as int), pat@, rep@));
            assert(before + (rep@ + replace_all(s@.skip(i + p), pat@, rep@)) =~= (before + rep@)
                + replace_all(s@.skip(i + p), pat@, rep@));
            i += p;
        } else {
            let ghost before = out@;
            out.push(sv[i]);
            assert(tail.drop_first() =~= s@.skip(i + 1));
            assert(replace_all(tail, pat@, rep@) == seq![s@[i as int]] + replace_all(tail.drop_first(), pat@, rep@));
            assert(before + (seq![s@[i as int]] + replace_all(s@.skip(i + 1), pat@, rep@)) =~= before.push(s@[i as int])
                + replace_all(s@.skip(i + 1), pat@, rep@));
            i += 1;
        }
    }
    assert(s@.skip(n as int) =~= Seq::<char>::empty());
    assert(out@ + Seq::<char>::empty() =~= out@);
    string_of(&out)
}

/// Replacing a pattern that does not occur leaves the text as it is.
pub proof fn lemma_replace_absent(s: Seq<char>, pat: Seq<char>, rep: Seq<char>)
    requires
        pat.len() > 0,
        !occurs_in(s, pat),
    ensures
        replace_all(s, pat, rep) == s,
    decreases s.len(),
{
    if s.len() > 0 {
        if starts_with(s, pat) {
            assert(s.subrange(0int, 0int + pat.len()) =~= s.take(pat.len() as int));
            assert(occurs_in(s, pat));
        }
        assert(!occurs_in(s.drop_first(), pat)) by {
            if occurs_in(s.drop_first(), pat) {
                let i = choose|i: int| 0 <= i <= s.drop_first().len() - pat.len()
                    && #[trigger] s.drop_first().subrange(i, i + pat.len()) == pat;
                assert(s.subrange(i + 1, i + 1 + pat.len()) =~= s.drop_first().subrange(i, i + pat.len()));
            }
        }
        lemma_replace_absent(s.drop_first(), pat, rep);
        assert(s =~= seq![s[0]] + s.drop_first());
    }
}

/// Replacing one character by one character changes exactly the positions that hold it.
pub proof fn lemma_replace_char(s: Seq<char>, a: char, b: char)
    ensures
        replace_all(s, seq![a], seq![b]).len() == s.len(),
        forall|i: int| 0 <= i < s.len() ==> #[trigger] replace_all(s, seq![a], seq![b])[i]
            == if s[i] == a { b } else { s[i] },
    decreases s.len(),
{
    if s.len() > 0 {
        lemma_replace_char(s.drop_first(), a, b);
        let r = replace_all(s, seq![a], seq![b]);
        let t = replace_all(s.drop_first(), seq![a], seq![b]);
        if s[0] == a {
            assert(s.take(1) =~= seq![a]);
            assert(s.skip(1) =~= s.drop_first());
            assert(r == seq![b] + t);
        } else {
            assert(!starts_with(s, seq![a])) by {
                if starts_with(s, seq![a]) {
                    assert(s.take(1)[0] == s[0]);
                }
            }
            assert(r == seq![s[0]] + t);
        }
        assert forall|i: int| 0 <= i < s.len() implies #[trigger] r[i] == if s[i] == a { b } else { s[i] } by {
            if i > 0 {
                assert(r[i] == t[i - 1]);
                assert(s.drop_first()[i - 1] == s[i]);
            }
        }
    }
}

} // verus!
