use vstd::prelude::*;
use crate::text::{
    chars_of, contains_char, lemma_replace_char, matches_at, occurs_in, owned, replace_all, replace_str, second_field,
    second_field_of, starts_with, string_of, views,
};

verus! {

/// Whether `c` may stand in a name of a config reference.
fn is_key_char_exec(c: char) -> (r: bool)
    ensures
        r == is_key_char(c),
{
    ('a' <= c && c <= 'z') || ('A' <= c && c <= 'Z') || c == ',' || c == '_'
}

} // verus!

verus! {

/// Reads the names a Nextflow config refers to as `secrets.NAME` or `exParams.NAME`.
pub struct ConfigParser {}

/// What the `regex` crate finds in `text` for `pattern`: `None` when `Regex::new(pattern)`
/// returns an error, otherwise the texts of the successive non-overlapping matches that
/// `Regex::find_iter(text)` yields, in the order it yields them.
pub uninterp spec fn regex_matches(text: Seq<char>, pattern: Seq<char>) -> Option<Seq<Seq<char>>>;

/// Compiles `pattern` with `regex::Regex::new` and, when that succeeds, collects the text
/// (`Match::as_str`) of every match that `Regex::find_iter` yields on `text`. The contract
/// claims no more than that the result is `regex_matches` of the two arguments.
#[verifier::external_body]
fn regex_find_all(text: &str, pattern: &str) -> (r: Option<Vec<String>>)
    ensures
        match regex_matches(text@, pattern@) {
            None => r is None,
            Some(ms) => r matches Some(v) && views(v@) == ms,
        },
{
    match regex::Regex::new(pattern) {
        Ok(re) => Some(re.find_iter(text).map(|m| m.as_str().to_string()).collect()),
        Err(_) => None,
    }
}

/// The pattern under which a config refers to a Key Vault secret.
pub open spec fn secrets_pattern() -> Seq<char> {
    "secrets.[a-z,A-Z,_]*"@
}

/// The pattern under which a config refers to an extended parameter.
pub open spec fn ex_params_pattern() -> Seq<char> {
    "exParams.[a-z,A-Z,_]*"@
}

/// The name in a `prefix.name` match: its second field when split at `.`.
pub open spec fn key_of(m: Seq<char>) -> Seq<char> {
    second_field(m, '.')
}

/// `s` with every element after its first occurrence dropped; first occurrences keep their order.
pub open spec fn dedup(s: Seq<Seq<char>>) -> Seq<Seq<char>>
    decreases s.len(),
{
    if s.len() == 0 {
        Seq::empty()
    } else {
        let d = dedup(s.drop_last());
        if d.contains(s.last()) {
            d
        } else {
            d.push(s.last())
        }
    }
}

/// Every match holds a `.`, so that its name is defined.
pub open spec fn all_keyed(ms: Seq<Seq<char>>) -> bool {
    forall|i: int| 0 <= i < ms.len() ==> #[trigger] ms[i].contains('.')
}

/// The names of the matches `ms`, each once, in order of first appearance.
pub open spec fn unique_keys(ms: Seq<Seq<char>>) -> Seq<Seq<char>> {
    dedup(ms.map_values(|m: Seq<char>| key_of(m)))
}

/// The matches that hold a `.`, in order: those that are references `prefix.NAME`. (The `.` of
/// the patterns matches any character, so `secrets are` in a comment is a match, but no reference.)
pub open spec fn keyed(ms: Seq<Seq<char>>) -> Seq<Seq<char>>
    decreases ms.len(),
{
    if ms.len() == 0 {
        Seq::empty()
    } else if ms.last().contains('.') {
        keyed(ms.drop_last()).push(ms.last())
    } else {
        keyed(ms.drop_last())
    }
}

/// What `find_unique_val_from_keyval_pattern` gives for a config text and a pattern: the names
/// of the matches that are references, each once, in order of first appearance; no result where
/// the pattern does not compile.
pub open spec fn unique_vals_spec(text: Seq<char>, pattern: Seq<char>) -> Option<Seq<Seq<char>>> {
    match regex_matches(text, pattern) {
        None => None,
        Some(ms) => Some(unique_keys(keyed(ms))),
    }
}

/// The view of an optional list of strings.
pub open spec fn opt_views(r: Option<Vec<String>>) -> Option<Seq<Seq<char>>> {
    match r {
        None => None,
        Some(v) => Some(views(v@)),
    }
}

/// The Key Vault name of a config secret: `_` becomes `-`.
pub open spec fn keyvault_name(name: Seq<char>) -> Seq<char> {
    replace_all(name, "_"@, "-"@)
}

/// The text that opens a reference to an extended parameter: `exParams.`.
pub open spec fn ex_params_prefix() -> Seq<char> {
    seq!['e', 'x', 'P', 'a', 'r', 'a', 'm', 's', '.']
}

/// The characters a name may hold in a config reference: `[a-z,A-Z,_]`.
pub open spec fn is_key_char(c: char) -> bool {
    ('a' <= c && c <= 'z') || ('A' <= c && c <= 'Z') || c == ',' || c == '_'
}

/// The length of the longest run of name characters at the start of `s`.
pub open spec fn key_run_len(s: Seq<char>) -> nat
    decreases s.len(),
{
    if s.len() == 0 || !is_key_char(s[0]) {
        0
    } else {
        1 + key_run_len(s.drop_first())
    }
}

/// The name at the start of `s`: its longest run of name characters.
pub open spec fn key_run(s: Seq<char>) -> Seq<char> {
    s.take(key_run_len(s) as int)
}

/// `k` is the first position of `x` in `names`.
pub open spec fn is_first_name(names: Seq<Seq<char>>, x: Seq<char>, k: int) -> bool {
    &&& 0 <= k < names.len()
    &&& names[k] == x
    &&& forall|j: int| 0 <= j < k ==> names[j] != x
}

/// The value of the name `x`: the value beside its first place in `names`, if it is there.
pub open spec fn value_for(names: Seq<Seq<char>>, values: Seq<Seq<char>>, x: Seq<char>) -> Option<Seq<char>> {
    if exists|k: int| is_first_name(names, x, k) {
        Some(values[choose|k: int| is_first_name(names, x, k)])
    } else {
        None
    }
}

/// `text` with every reference `exParams.NAME` to a name of `names`, NAME being the whole run of
/// name characters after the `.`, replaced by that name's value; everything else is kept.
pub open spec fn substitute_params(text: Seq<char>, names: Seq<Seq<char>>, values: Seq<Seq<char>>) -> Seq<char>
    decreases text.len(),
{
    if text.len() == 0 {
        text
    } else if starts_with(text, ex_params_prefix()) && value_for(names, values, key_run(text.skip(9))) is Some {
        proof {
            lemma_key_run_len_bound(text.skip(9));
        }
        value_for(names, values, key_run(text.skip(9)))->0 + substitute_params(
            text.skip(9 + key_run_len(text.skip(9)) as int),
            names,
            values,
        )
    } else {
        seq![text[0]] + substitute_params(text.drop_first(), names, values)
    }
}

/// A run of name characters is no longer than the text it starts.
pub proof fn lemma_key_run_len_bound(s: Seq<char>)
    ensures
        key_run_len(s) <= s.len(),
    decreases s.len(),
{
    if s.len() > 0 && is_key_char(s[0]) {
        lemma_key_run_len_bound(s.drop_first());
    }
}

/// The run of name characters ends at the first character that is not one.
pub proof fn lemma_key_run_len(s: Seq<char>, m: int)
    requires
        0 <= m <= s.len(),
        forall|k: int| 0 <= k < m ==> is_key_char(#[trigger] s[k]),
        m == s.len() || !is_key_char(s[m]),
    ensures
        key_run_len(s) == m,
    decreases m,
{
    if m > 0 {
        assert(is_key_char(s[0]));
        assert forall|k: int| 0 <= k < m - 1 implies is_key_char(#[trigger] s.drop_first()[k]) by {
            assert(s.drop_first()[k] == s[k + 1]);
        }
        if m < s.len() {
            assert(s.drop_first()[m - 1] == s[m]);
        }
        lemma_key_run_len(s.drop_first(), m - 1);
    }
}

/// A text with no `exParams.` in it is left as it is.
pub proof fn lemma_substitute_absent(text: Seq<char>, names: Seq<Seq<char>>, values: Seq<Seq<char>>)
    requires
        !occurs_in(text, ex_params_prefix()),
    ensures
        substitute_params(text, names, values) == text,
    decreases text.len(),
{
    if text.len() > 0 {
        let p = ex_params_prefix();
        if starts_with(text, p) {
            assert(text.subrange(0int, 0int + p.len()) =~= text.take(p.len() as int));
            assert(occurs_in(text, p));
        }
        assert(!occurs_in(text.drop_first(), p)) by {
            if occurs_in(text.drop_first(), p) {
                let i = choose|i: int| 0 <= i <= text.drop_first().len() - p.len()
                    && #[trigger] text.drop_first().subrange(i, i + p.len()) == p;
                assert(text.subrange(i + 1, i + 1 + p.len()) =~= text.drop_first().subrange(i, i + p.len()));
            }
        }
        lemma_substitute_absent(text.drop_first(), names, values);
        assert(text =~= seq![text[0]] + text.drop_first());
    }
}

/// A reference `exParams.NAME` to a listed name, NAME made of `[a-z,A-Z,_]` characters and not
/// followed by one, is replaced as a whole by the value beside the name's first place in the
/// list; the text after it is then read on its own.
pub proof fn lemma_reference_replaced_whole(
    name: Seq<char>,
    after: Seq<char>,
    names: Seq<Seq<char>>,
    values: Seq<Seq<char>>,
    k: int,
)
    requires
        names.len() == values.len(),
        0 <= k < names.len(),
        names[k] == name,
        forall|j: int| 0 <= j < k ==> names[j] != name,
        forall|i: int| 0 <= i < name.len() ==> {
            let c = #[trigger] name[i];
            ('a' <= c && c <= 'z') || ('A' <= c && c <= 'Z') || c == ',' || c == '_'
        },
        after.len() == 0 || !(('a' <= after[0] && after[0] <= 'z') || ('A' <= after[0] && after[0] <= 'Z')
            || after[0] == ',' || after[0] == '_'),
    ensures
        substitute_params("exParams."@ + name + after, names, values) == values[k] + substitute_params(
            after,
            names,
            values,
        ),
{
    reveal_strlit("exParams.");
    let p = "exParams."@;
    assert(p =~= ex_params_prefix());
    let t = p + name + after;
    assert(t.take(9) =~= p);
    assert(starts_with(t, ex_params_prefix()));
    let u = t.skip(9);
    assert(u =~= name + after);
    assert forall|i: int| 0 <= i < name.len() implies is_key_char(#[trigger] u[i]) by {
        assert(u[i] == name[i]);
    }
    if after.len() > 0 {
        assert(u[name.len() as int] == after[0]);
    }
    lemma_key_run_len(u, name.len() as int);
    assert(key_run(u) =~= name);
    assert(is_first_name(names, name, k));
    let c = choose|c: int| is_first_name(names, name, c);
    if c < k {
        assert(names[c] != name);
    }
    if c > k {
        assert(names[k] != name);
    }
    assert(value_for(names, values, name) == Some(values[k]));
    assert(t.skip(9 + name.len() as int) =~= after);
}

proof fn lemma_views_push(v: Seq<String>, s: String)
    ensures
        views(v.push(s)) == views(v).push(s@),
{
    assert(views(v.push(s)) =~= views(v).push(s@));
}

/// Dropping repeats keeps exactly the elements of the sequence, each once.
pub proof fn lemma_dedup(s: Seq<Seq<char>>)
    ensures
        dedup(s).no_duplicates(),
        forall|x: Seq<char>| #[trigger] dedup(s).contains(x) <==> s.contains(x),
    decreases s.len(),
{
    if s.len() > 0 {
        let p = s.drop_last();
        lemma_dedup(p);
        let d = dedup(p);
        assert forall|x: Seq<char>| #[trigger] dedup(s).contains(x) <==> s.contains(x) by {
            if s.contains(x) && !p.contains(x) {
                let k = choose|k: int| 0 <= k < s.len() && s[k] == x;
                if k < s.len() - 1 {
                    assert(p[k] == x);
                }
                assert(x == s.last());
                if !d.contains(s.last()) {
                    assert(d.push(s.last())[d.len() as int] == x);
                }
            }
            if p.contains(x) {
                let k = choose|k: int| 0 <= k < p.len() && p[k] == x;
                assert(s[k] == x);
                assert(dedup(p).contains(x));
                if !d.contains(s.last()) {
                    let j = choose|j: int| 0 <= j < d.len() && d[j] == x;
                    assert(d.push(s.last())[j] == x);
                }
            }
            if dedup(s).contains(x) && !d.contains(x) {
                assert(s[s.len() - 1] == x) by {
                    let j = choose|j: int| 0 <= j < dedup(s).len() && dedup(s)[j] == x;
                    if j < d.len() {
                        assert(d.push(s.last())[j] == d[j]);
                    }
                }
            }
        }
        if !d.contains(s.last()) {
            assert(d.push(s.last()).no_duplicates()) by {
                let e = d.push(s.last());
                assert forall|i: int, j: int| 0 <= i < e.len() && 0 <= j < e.len() && i != j implies e[i] != e[j] by {
                    if i < d.len() && j < d.len() {
                    } else if i < d.len() {
                        assert(d.contains(d[i]));
                    } else {
                        assert(d.contains(d[j]));
                    }
                }
            }
        }
    }
}

/// The names found for a set of matches appear once each, and they are exactly the names
/// of the matches.
pub proof fn lemma_unique_keys(ms: Seq<Seq<char>>)
    ensures
        unique_keys(ms).no_duplicates(),
        forall|x: Seq<char>| #[trigger] unique_keys(ms).contains(x) <==> exists|i: int|
            0 <= i < ms.len() && key_of(ms[i]) == x,
{
    let keys = ms.map_values(|m: Seq<char>| key_of(m));
    lemma_dedup(keys);
    assert forall|x: Seq<char>| #[trigger] unique_keys(ms).contains(x) <==> exists|i: int|
        0 <= i < ms.len() && key_of(ms[i]) == x by {
        if keys.contains(x) {
            let i = choose|i: int| 0 <= i < keys.len() && keys[i] == x;
            assert(key_of(ms[i]) == x);
        }
        if exists|i: int| 0 <= i < ms.len() && key_of(ms[i]) == x {
            let i = choose|i: int| 0 <= i < ms.len() && key_of(ms[i]) == x;
            assert(keys[i] == x);
        }
    }
}

/// A Key Vault name holds a `-` wherever the config name holds a `_`, and is otherwise the
/// config name.
pub proof fn lemma_keyvault_name(name: Seq<char>)
    ensures
        keyvault_name(name).len() == name.len(),
        forall|i: int| 0 <= i < name.len() ==> #[trigger] keyvault_name(name)[i] == if name[i] == '_' {
            '-'
        } else {
            name[i]
        },
        !keyvault_name(name).contains('_'),
{
    reveal_strlit("_");
    reveal_strlit("-");
    assert("_"@ =~= seq!['_']);
    assert("-"@ =~= seq!['-']);
    lemma_replace_char(name, '_', '-');
    let k = keyvault_name(name);
    if k.contains('_') {
        let i = choose|i: int| 0 <= i < k.len() && k[i] == '_';
        assert(k[i] == if name[i] == '_' { '-' } else { name[i] });
    }
}

impl ConfigParser {
    /// The texts of all matches of `pattern` in `string`. A pattern that does not compile is a
    /// fault of the caller: it gets `None` for it, and the program stops there.
    pub fn find_in_string(string: &str, pattern: &str) -> (r: Option<Vec<String>>)
        ensures
            opt_views(r) == regex_matches(string@, pattern@),
    {
        regex_find_all(string, pattern)
    }

    /// The texts of all matches of `pattern` in the text of a config file, which the caller reads
    /// (and stops on when it cannot). `None`, on which the program stops too, when the pattern
    /// does not compile.
    pub fn find_in_file(file_text: &str, pattern: &str) -> (r: Option<Vec<String>>)
        ensures
            opt_views(r) == regex_matches(file_text@, pattern@),
    {
        Self::find_in_string(file_text, pattern)
    }

    /// The name in a `prefix.name` match: the text between its first and second `.`.
    pub fn key_of_match(m: &str) -> (r: String)
        requires
            m@.contains('.'),
        ensures
            r@ == key_of(m@),
    {
        second_field_of(m, '.')
    }

    /// Whether `name` is one of `names`.
    fn contains_name(names: &Vec<String>, name: &String) -> (r: bool)
        ensures
            r == views(names@).contains(name@),
    {
        let n = names.len();
        let mut i: usize = 0;
        while i < n
            invariant
                n == names@.len(),
                i <= n,
                forall|j: int| 0 <= j < i ==> names@[j]@ != name@,
            decreases n - i,
        {
            if names[i] == *name {
                assert(views(names@)[i as int] == name@);
                return true;
            }
            i += 1;
        }
        assert(!views(names@).contains(name@)) by {
            if views(names@).contains(name@) {
                let k = choose|k: int| 0 <= k < views(names@).len() && views(names@)[k] == name@;
                assert(names@[k]@ == name@);
            }
        }
        false
    }

    /// The names in `matches`, each once, in order of first appearance.
    pub fn unique_keys_of(matches: &Vec<String>) -> (r: Vec<String>)
        requires
            all_keyed(views(matches@)),
        ensures
            views(r@) == unique_keys(views(matches@)),
    {
        let ghost keys = views(matches@).map_values(|m: Seq<char>| key_of(m));
        let mut unique: Vec<String> = Vec::new();
        let n = matches.len();
        let mut i: usize = 0;
        while i < n
            invariant
                n == matches@.len(),
                i <= n,
                all_keyed(views(matches@)),
                keys == views(matches@).map_values(|m: Seq<char>| key_of(m)),
                views(unique@) == dedup(keys.take(i as int)),
            decreases n - i,
        {
            assert(views(matches@)[i as int].contains('.'));
            let name = Self::key_of_match(matches[i].as_str());
            assert(keys.take(i as int + 1).drop_last() =~= keys.take(i as int));
            assert(keys.take(i as int + 1).last() == name@);
            if !Self::contains_name(&unique, &name) {
                proof {
                    lemma_views_push(unique@, name);
                }
                unique.push(name);
            }
            i += 1;
        }
        assert(keys.take(n as int) =~= keys);
        unique
    }

    /// The names in the references `prefix.NAME` among `matches`, each once, in order of first
    /// appearance; matches without a `.` are no references and are passed over.
    pub fn unique_vals_of(matches: &Vec<String>) -> (r: Vec<String>)
        ensures
            views(r@) == unique_keys(keyed(views(matches@))),
    {
        let ghost ms = views(matches@);
        let mut refs: Vec<String> = Vec::new();
        let n = matches.len();
        let mut i: usize = 0;
        while i < n
            invariant
                n == matches@.len(),
                i <= n,
                ms == views(matches@),
                views(refs@) == keyed(ms.take(i as int)),
                all_keyed(views(refs@)),
            decreases n - i,
        {
            assert(ms[i as int] == matches@[i as int]@);
            assert(ms.take(i + 1).drop_last() =~= ms.take(i as int));
            assert(ms.take(i + 1).last() == ms[i as int]);
            if contains_char(matches[i].as_str(), '.') {
                let ghost before = refs@;
                refs.push(matches[i].clone());
                proof {
                    lemma_views_push(before, matches@[i as int]);
                    assert forall|k: int| 0 <= k < views(refs@).len() implies #[trigger] views(refs@)[k].contains('.') by {
                        if k < before.len() {
                            assert(views(refs@)[k] == views(before)[k]);
                        }
                    }
                }
            }
            i += 1;
        }
        assert(ms.take(n as int) =~= ms);
        Self::unique_keys_of(&refs)
    }

    /// The names in the references `prefix.NAME` among the matches of `pattern` in a config text,
    /// each once, in order of first appearance; matches without a `.` are no references and are
    /// passed over. `None` where the pattern does not compile: the patterns are the program's own,
    /// and the caller stops on such a fault.
    pub fn find_unique_val_from_keyval_pattern(file_text: &str, pattern: &str) -> (r: Option<Vec<String>>)
        ensures
            opt_views(r) == unique_vals_spec(file_text@, pattern@),
    {
        match Self::find_in_file(file_text, pattern) {
            None => None,
            Some(matches) => Some(Self::unique_vals_of(&matches)),
        }
    }

    /// The secrets that a config text refers to as `secrets.NAME`.
    pub fn find_secrets(file_text: &str) -> (r: Option<Vec<String>>)
        ensures
            opt_views(r) == unique_vals_spec(file_text@, secrets_pattern()),
    {
        Self::find_unique_val_from_keyval_pattern(file_text, "secrets.[a-z,A-Z,_]*")
    }

    /// The extended parameters that a config text refers to as `exParams.NAME`.
    pub fn find_extended_params(file_text: &str) -> (r: Option<Vec<String>>)
        ensures
            opt_views(r) == unique_vals_spec(file_text@, ex_params_pattern()),
    {
        Self::find_unique_val_from_keyval_pattern(file_text, "exParams.[a-z,A-Z,_]*")
    }

    /// The Key Vault secret that holds the value of the config name `name`: each `_` becomes `-`.
    pub fn keyvault_secret_name(name: &str) -> (r: String)
        ensures
            r@ == keyvault_name(name@),
    {
        proof {
            reveal_strlit("_");
        }
        replace_str(name, "_", "-")
    }

    /// The arguments of the `nextflow secrets set NAME VALUE` command that stores a secret.
    pub fn secrets_set_args(name: &str, value: &str) -> (r: Vec<String>)
        ensures
            views(r@) == seq!["secrets"@, "set"@, name@, value@],
    {
        let mut r: Vec<String> = Vec::new();
        r.push(owned("secrets"));
        r.push(owned("set"));
        r.push(owned(name));
        r.push(owned(value));
        assert(views(r@) =~= seq!["secrets"@, "set"@, name@, value@]);
        r
    }

    /// The position of the first name in `names` that holds exactly the characters `run`.
    fn first_name_index(names: &Vec<String>, run: &String) -> (r: Option<usize>)
        ensures
            match r {
                Some(k) => is_first_name(views(names@), run@, k as int),
                None => forall|k: int| 0 <= k < names@.len() ==> views(names@)[k] != run@,
            },
    {
        let n = names.len();
        let mut k: usize = 0;
        while k < n
            invariant
                n == names@.len(),
                k <= n,
                forall|j: int| 0 <= j < k ==> views(names@)[j] != run@,
            decreases n - k,
        {
            assert(views(names@)[k as int] == names@[k as int]@);
            if names[k] == *run {
                return Some(k);
            }
            k += 1;
        }
        None
    }

    /// `file_text` with every reference `exParams.NAME` to one of `names` replaced by the value
    /// at the same place in `values`; NAME is the whole run of name characters (`[a-z,A-Z,_]`)
    /// after the `.`, so that one name that begins another does not touch it.
    pub fn substitute_extended_params(file_text: &str, names: &Vec<String>, values: &Vec<String>) -> (r: String)
        requires
            names@.len() == values@.len(),
        ensures
            r@ == substitute_params(file_text@, views(names@), views(values@)),
    {
        let ghost nv = views(names@);
        let ghost vv = views(values@);
        let ghost text = file_text@;
        let sv = chars_of(file_text);
        let pv = chars_of("exParams.");
        proof {
            reveal_strlit("exParams.");
            assert(pv@ =~= ex_params_prefix());
        }
        let n = sv.len();
        let mut out: Vec<char> = Vec::new();
        let mut i: usize = 0;
        assert(text.skip(0) =~= text);
        assert(out@ + substitute_params(text, nv, vv) =~= substitute_params(text, nv, vv));
        while i < n
            invariant
                n == sv@.len(),
                sv@ == text,
                pv@ == ex_params_prefix(),
                nv == views(names@),
                vv == views(values@),
                names@.len() == values@.len(),
                i <= n,
                out@ + substitute_params(text.skip(i as int), nv, vv) == substitute_params(text, nv, vv),
            decreases n - i,
        {
            let ghost t = text.skip(i as int);
            let ghost before = out@;
            let mut replaced = false;
            if matches_at(&sv, i, &pv) {
                let start = i + 9;
                let mut j: usize = start;
                let mut run_chars: Vec<char> = Vec::new();
                while j < n && is_key_char_exec(sv[j])
                    invariant
                        n == sv@.len(),
                        start <= j <= n,
                        run_chars@ == sv@.subrange(start as int, j as int),
                        forall|k: int| start <= k < j ==> is_key_char(#[trigger] sv@[k]),
                    decreases n - j,
                {
                    run_chars.push(sv[j]);
                    j += 1;
                    assert(run_chars@ =~= sv@.subrange(start as int, j as int));
                }
                let ghost u = t.skip(9);
                proof {
                    assert(u =~= text.skip(start as int));
                    assert forall|k: int| 0 <= k < j - start implies is_key_char(#[trigger] u[k]) by {
                        assert(u[k] == sv@[start + k]);
                    }
                    if j < n {
                        assert(u[j - start] == sv@[j as int]);
                    }
                    lemma_key_run_len(u, j - start);
                    assert(key_run(u) =~= run_chars@);
                }
                let run = string_of(&run_chars);
                match Self::first_name_index(names, &run) {
                    Some(k) => {
                        proof {
                            assert(exists|k2: int| is_first_name(nv, run@, k2));
                            let c = choose|k2: int| is_first_name(nv, run@, k2);
                            if c < k {
                                assert(nv[c] != run@);
                            }
                            if c > k {
                                assert(nv[k as int] != run@);
                            }
                            assert(value_for(nv, vv, key_run(u)) == Some(vv[k as int]));
                            assert(vv[k as int] == values@[k as int]@);
                        }
                        let vchars = chars_of(values[k].as_str());
                        let m = vchars.len();
                        let mut q: usize = 0;
                        while q < m
                            invariant
                                m == vchars@.len(),
                                q <= m,
                                out@ == before + vchars@.take(q as int),
                            decreases m - q,
                        {
                            out.push(vchars[q]);
                            q += 1;
                            assert(out@ =~= before + vchars@.take(q as int));
                        }
                        proof {
                            assert(vchars@.take(m as int) =~= vchars@);
                            assert(t.skip(9 + key_run_len(u) as int) =~= text.skip(j as int));
                            assert(substitute_params(t, nv, vv) == vv[k as int] + substitute_params(
                                text.skip(j as int),
                                nv,
                                vv,
                            ));
                            assert(before + (vv[k as int] + substitute_params(text.skip(j as int), nv, vv)) =~= out@
                                + substitute_params(text.skip(j as int), nv, vv));
                        }
                        i = j;
                        replaced = true;
                    },
                    None => {
                        proof {
                            assert(!exists|k2: int| is_first_name(nv, run@, k2));
                            assert(value_for(nv, vv, key_run(u)) is None);
                        }
                    },
                }
            }
            if !replaced {
                out.push(sv[i]);
                proof {
                    assert(t.drop_first() =~= text.skip(i + 1));
                    assert(t[0] == sv@[i as int]);
                    assert(substitute_params(t, nv, vv) == seq![t[0]] + substitute_params(t.drop_first(), nv, vv));
                    assert(before + (seq![t[0]] + substitute_params(text.skip(i + 1), nv, vv)) =~= out@
                        + substitute_params(text.skip(i + 1), nv, vv));
                }
                i += 1;
            }
        }
        proof {
            assert(text.skip(n as int) =~= Seq::<char>::empty());
            assert(out@ + Seq::<char>::empty() =~= out@);
        }
        string_of(&out)
    }

    /// `file_text` with every reference `exParams.NAME` to the one name `name` replaced by `value`.
    pub fn substitute_extended_param(file_text: &str, name: &str, value: &str) -> (r: String)
        ensures
            r@ == substitute_params(file_text@, seq![name@], seq![value@]),
    {
        let mut names: Vec<String> = Vec::new();
        names.push(owned(name));
        let mut values: Vec<String> = Vec::new();
        values.push(owned(value));
        assert(views(names@) =~= seq![name@]);
        assert(views(values@) =~= seq![value@]);
        Self::substitute_extended_params(file_text, &names, &values)
    }
}

} // verus!
