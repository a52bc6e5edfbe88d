//! Build properties per language: whitespace-separated token lists that
//! merge as sets.

use vstd::prelude::*;
use vstd::string::*;

use crate::text::{
    is_word, join_words, join_with_spaces, lemma_words_are_words, lemma_words_of_joined, split_words,
    view_strings, words,
};

verus! {

/// The tokens of `s` with repeats removed; each stays where it first occurs.
pub open spec fn dedup(s: Seq<Seq<char>>) -> Seq<Seq<char>>
    decreases s.len(),
{
    if s.len() == 0 {
        seq![]
    } else {
        let r = dedup(s.drop_last());
        if r.contains(s.last()) {
            r
        } else {
            r.push(s.last())
        }
    }
}

/// The tokens of `s` that `d` does not hold, in order.
pub open spec fn without(s: Seq<Seq<char>>, d: Seq<Seq<char>>) -> Seq<Seq<char>>
    decreases s.len(),
{
    if s.len() == 0 {
        seq![]
    } else {
        let r = without(s.drop_last(), d);
        if d.contains(s.last()) {
            r
        } else {
            r.push(s.last())
        }
    }
}

/// The token set of a value: its distinct words.
pub open spec fn token_set(v: Seq<char>) -> Seq<Seq<char>> {
    dedup(words(v))
}

/// The words of an optional value; none when it is absent.
pub open spec fn opt_words(v: Option<Seq<char>>) -> Seq<Seq<char>> {
    match v {
        Some(x) => words(x),
        None => seq![],
    }
}

/// The tokens of a merged value: the base's and the added ones, without
/// the disabled ones.
pub open spec fn merged_tokens(base: Seq<char>, add: Option<Seq<char>>, remove: Option<Seq<char>>) -> Seq<
    Seq<char>,
> {
    without(dedup(words(base) + opt_words(add)), opt_words(remove))
}

/// Removing repeats keeps exactly the tokens that were there.
pub proof fn lemma_dedup_contains(s: Seq<Seq<char>>, t: Seq<char>)
    ensures
        dedup(s).contains(t) <==> s.contains(t),
    decreases s.len(),
{
    if s.len() > 0 {
        lemma_dedup_contains(s.drop_last(), t);
        if s.drop_last().contains(t) {
            let i = choose|i: int| 0 <= i < s.drop_last().len() && s.drop_last()[i] == t;
            assert(s[i] == t);
        }
        if s.contains(t) && t != s.last() {
            let i = choose|i: int| 0 <= i < s.len() && s[i] == t;
            assert(s.drop_last()[i] == t);
        }
        let r = dedup(s.drop_last());
        if !r.contains(s.last()) {
            assert(r.push(s.last())[r.len() as int] == s.last());
            if r.contains(t) {
                let i = choose|i: int| 0 <= i < r.len() && r[i] == t;
                assert(r.push(s.last())[i] == t);
            }
            if r.push(s.last()).contains(t) && t != s.last() {
                let i = choose|i: int| 0 <= i < r.len() + 1 && r.push(s.last())[i] == t;
                assert(r[i] == t);
            }
        }
    }
}

/// A token survives removal exactly when it was there and is not removed.
pub proof fn lemma_without_contains(s: Seq<Seq<char>>, d: Seq<Seq<char>>, t: Seq<char>)
    ensures
        without(s, d).contains(t) <==> s.contains(t) && !d.contains(t),
    decreases s.len(),
{
    if s.len() > 0 {
        lemma_without_contains(s.drop_last(), d, t);
        if s.drop_last().contains(t) {
            let i = choose|i: int| 0 <= i < s.drop_last().len() && s.drop_last()[i] == t;
            assert(s[i] == t);
        }
        if s.contains(t) && t != s.last() {
            let i = choose|i: int| 0 <= i < s.len() && s[i] == t;
            assert(s.drop_last()[i] == t);
        }
        let r = without(s.drop_last(), d);
        if !d.contains(s.last()) {
            assert(r.push(s.last())[r.len() as int] == s.last());
            if r.contains(t) {
                let i = choose|i: int| 0 <= i < r.len() && r[i] == t;
                assert(r.push(s.last())[i] == t);
            }
            if r.push(s.last()).contains(t) && t != s.last() {
                let i = choose|i: int| 0 <= i < r.len() + 1 && r.push(s.last())[i] == t;
                assert(r[i] == t);
            }
        }
    }
}

/// A token is in a merged value exactly when the base or the override
/// holds it and the override does not disable it. As this speaks of
/// membership only, the order of the two token lists does not matter.
pub proof fn lemma_merged_tokens_contains(
    base: Seq<char>,
    add: Option<Seq<char>>,
    remove: Option<Seq<char>>,
    t: Seq<char>,
)
    ensures
        merged_tokens(base, add, remove).contains(t) <==> (words(base).contains(t) || opt_words(
            add,
        ).contains(t)) && !opt_words(remove).contains(t),
{
    let all = words(base) + opt_words(add);
    lemma_without_contains(dedup(all), opt_words(remove), t);
    lemma_dedup_contains(all, t);
    if all.contains(t) {
        let i = choose|i: int| 0 <= i < all.len() && all[i] == t;
        if i < words(base).len() {
            assert(words(base)[i] == t);
        } else {
            assert(opt_words(add)[i - words(base).len()] == t);
        }
    }
    if words(base).contains(t) {
        let i = choose|i: int| 0 <= i < words(base).len() && words(base)[i] == t;
        assert(all[i] == t);
    }
    if opt_words(add).contains(t) {
        let i = choose|i: int| 0 <= i < opt_words(add).len() && opt_words(add)[i] == t;
        assert(all[words(base).len() + i] == t);
    }
}

/// Overriding a key with some tokens while disabling the very same tokens
/// yields the default's tokens without them.
pub proof fn lemma_disable_own_tokens(base: Seq<char>, x: Seq<char>, t: Seq<char>)
    ensures
        merged_tokens(base, Some(x), Some(x)).contains(t) <==> words(base).contains(t) && !words(
            x,
        ).contains(t),
{
    lemma_merged_tokens_contains(base, Some(x), Some(x), t);
}

/// Merging is order-independent: swapping the base's and the override's
/// tokens yields the same token set.
pub proof fn lemma_merge_order_independent(
    a: Seq<char>,
    b: Seq<char>,
    remove: Option<Seq<char>>,
    t: Seq<char>,
)
    ensures
        merged_tokens(a, Some(b), remove).contains(t) <==> merged_tokens(b, Some(a), remove).contains(
            t,
        ),
{
    lemma_merged_tokens_contains(a, Some(b), remove, t);
    lemma_merged_tokens_contains(b, Some(a), remove, t);
}

proof fn lemma_push_distinct(r: Seq<Seq<char>>, x: Seq<char>)
    requires
        r.no_duplicates(),
        !r.contains(x),
    ensures
        r.push(x).no_duplicates(),
{
    let q = r.push(x);
    assert forall|i: int, j: int| 0 <= i < q.len() && 0 <= j < q.len() && i != j implies q[i]
        != q[j] by {
        if i < r.len() && j < r.len() {
            assert(q[i] == r[i] && q[j] == r[j]);
        } else if i < r.len() {
            assert(q[i] == r[i]);
        } else if j < r.len() {
            assert(q[j] == r[j]);
        }
    }
}

proof fn lemma_dedup_distinct(s: Seq<Seq<char>>)
    ensures
        dedup(s).no_duplicates(),
    decreases s.len(),
{
    if s.len() > 0 {
        lemma_dedup_distinct(s.drop_last());
        let r = dedup(s.drop_last());
        if !r.contains(s.last()) {
            lemma_push_distinct(r, s.last());
        }
    }
}

proof fn lemma_without_distinct(s: Seq<Seq<char>>, d: Seq<Seq<char>>)
    requires
        s.no_duplicates(),
    ensures
        without(s, d).no_duplicates(),
    decreases s.len(),
{
    if s.len() > 0 {
        let p = s.drop_last();
        assert forall|i: int, j: int| 0 <= i < p.len() && 0 <= j < p.len() && i != j implies p[i]
            != p[j] by {
            assert(p[i] == s[i] && p[j] == s[j]);
        }
        lemma_without_distinct(p, d);
        let r = without(p, d);
        if !d.contains(s.last()) {
            lemma_without_contains(p, d, s.last());
            if p.contains(s.last()) {
                let k = choose|k: int| 0 <= k < p.len() && p[k] == s.last();
                assert(s[k] == s[s.len() - 1]);
            }
            lemma_push_distinct(r, s.last());
        }
    }
}

proof fn lemma_dedup_identity(m: Seq<Seq<char>>)
    requires
        m.no_duplicates(),
    ensures
        dedup(m) == m,
    decreases m.len(),
{
    if m.len() > 0 {
        let p = m.drop_last();
        assert forall|i: int, j: int| 0 <= i < p.len() && 0 <= j < p.len() && i != j implies p[i]
            != p[j] by {
            assert(p[i] == m[i] && p[j] == m[j]);
        }
        lemma_dedup_identity(p);
        if p.contains(m.last()) {
            let k = choose|k: int| 0 <= k < p.len() && p[k] == m.last();
            assert(m[k] == m[m.len() - 1]);
        }
        assert(p.push(m.last()) =~= m);
    }
}

/// A merged value reads back as its merged tokens: splitting it into
/// words, as `string_to_set` does, gives exactly those tokens.
pub proof fn lemma_merged_value_tokens(k: Seq<char>, base: Seq<char>, over: Seq<(String, String)>)
    ensures
        token_set(merged_value(k, base, over)) == merged_tokens(
            base,
            lookup(over, k),
            lookup(over, disable_key(k)),
        ),
{
    let add = lookup(over, k);
    let remove = lookup(over, disable_key(k));
    let m = merged_tokens(base, add, remove);
    lemma_words_are_words(base);
    match add {
        Some(x) => lemma_words_are_words(x),
        None => {},
    }
    assert forall|i: int| 0 <= i < m.len() implies is_word(#[trigger] m[i]) by {
        let t = m[i];
        assert(m.contains(t));
        lemma_merged_tokens_contains(base, add, remove, t);
        if words(base).contains(t) {
            let j = choose|j: int| 0 <= j < words(base).len() && words(base)[j] == t;
            assert(is_word(words(base)[j]));
        } else {
            let j = choose|j: int| 0 <= j < opt_words(add).len() && opt_words(add)[j] == t;
            assert(is_word(opt_words(add)[j]));
        }
    }
    lemma_words_of_joined(m);
    lemma_dedup_distinct(words(base) + opt_words(add));
    lemma_without_distinct(dedup(words(base) + opt_words(add)), opt_words(remove));
    lemma_dedup_identity(m);
}

fn contains_string(v: &Vec<String>, s: &String) -> (r: bool)
    ensures
        r == view_strings(v@).contains(s@),
{
    let mut i: usize = 0;
    while i < v.len()
        invariant
            i <= v@.len(),
            forall|k: int| 0 <= k < i ==> v@[k]@ != s@,
        decreases v@.len() - i,
    {
        if v[i] == *s {
            proof {
                assert(view_strings(v@)[i as int] == s@);
            }
            return true;
        }
        i = i + 1;
    }
    proof {
        if view_strings(v@).contains(s@) {
            let k = choose|k: int| 0 <= k < view_strings(v@).len() && view_strings(v@)[k] == s@;
            assert(v@[k]@ == s@);
        }
    }
    false
}

/// `v` with repeats removed, first occurrences kept in order.
pub(crate) fn dedup_strings(v: Vec<String>) -> (r: Vec<String>)
    ensures
        view_strings(r@) == dedup(view_strings(v@)),
{
    let mut r: Vec<String> = Vec::new();
    let mut i: usize = 0;
    while i < v.len()
        invariant
            i <= v@.len(),
            view_strings(r@) == dedup(view_strings(v@.take(i as int))),
        decreases v@.len() - i,
    {
        proof {
            assert(view_strings(v@.take(i + 1)).drop_last() =~= view_strings(v@.take(i as int)));
        }
        if !contains_string(&r, &v[i]) {
            let ghost before = r@;
            r.push(v[i].clone());
            proof {
                assert(view_strings(r@) =~= view_strings(before).push(v@[i as int]@));
            }
        }
        i = i + 1;
    }
    proof {
        assert(v@.take(v@.len() as int) =~= v@);
    }
    r
}

/// The tokens of `v` that `d` does not hold.
fn strings_without(v: Vec<String>, d: &Vec<String>) -> (r: Vec<String>)
    ensures
        view_strings(r@) == without(view_strings(v@), view_strings(d@)),
{
    let mut r: Vec<String> = Vec::new();
    let mut i: usize = 0;
    while i < v.len()
        invariant
            i <= v@.len(),
            view_strings(r@) == without(view_strings(v@.take(i as int)), view_strings(d@)),
        decreases v@.len() - i,
    {
        proof {
            assert(view_strings(v@.take(i + 1)).drop_last() =~= view_strings(v@.take(i as int)));
        }
        if !contains_string(d, &v[i]) {
            let ghost before = r@;
            r.push(v[i].clone());
            proof {
                assert(view_strings(r@) =~= view_strings(before).push(v@[i as int]@));
            }
        }
        i = i + 1;
    }
    proof {
        assert(v@.take(v@.len() as int) =~= v@);
    }
    r
}

/// The distinct whitespace-separated tokens of `s`, in order of first
/// occurrence.
pub fn string_to_set(s: &String) -> (r: Vec<String>)
    ensures
        view_strings(r@) == token_set(s@),
{
    dedup_strings(split_words(s.as_str()))
}

/// The tokens joined by single spaces.
pub fn set_to_string(s: &Vec<String>) -> (r: String)
    ensures
        r@ == join_words(view_strings(s@)),
{
    join_with_spaces(s)
}

fn append_strings(a: &mut Vec<String>, b: Vec<String>)
    ensures
        view_strings(final(a)@) == view_strings(old(a)@) + view_strings(b@),
{
    let ghost added = b@;
    let mut b = b;
    a.append(&mut b);
    proof {
        assert(view_strings(final(a)@) =~= view_strings(old(a)@) + view_strings(added));
    }
}

/// The value of key `k` among the entries: the first entry with that key.
pub open spec fn lookup(e: Seq<(String, String)>, k: Seq<char>) -> Option<Seq<char>>
    decreases e.len(),
{
    if e.len() == 0 {
        None
    } else if e[0].0@ == k {
        Some(e[0].1@)
    } else {
        lookup(e.drop_first(), k)
    }
}

/// No key occurs twice among the entries.
pub open spec fn keys_distinct(e: Seq<(String, String)>) -> bool {
    forall|i: int, j: int| 0 <= i < j < e.len() ==> e[i].0@ != e[j].0@
}

/// The key whose tokens a merge removes from `k`'s value.
pub open spec fn disable_key(k: Seq<char>) -> Seq<char> {
    "disable_"@ + k
}

/// The value of key `k` after merging `base` with `over`.
pub open spec fn merged_value(k: Seq<char>, base: Seq<char>, over: Seq<(String, String)>) -> Seq<char> {
    join_words(merged_tokens(base, lookup(over, k), lookup(over, disable_key(k))))
}

proof fn lemma_lookup_skip(e: Seq<(String, String)>, k: Seq<char>, i: int)
    requires
        0 <= i <= e.len(),
        forall|j: int| 0 <= j < i ==> e[j].0@ != k,
    ensures
        lookup(e, k) == lookup(e.skip(i), k),
    decreases i,
{
    if i > 0 {
        lemma_lookup_skip(e, k, i - 1);
        assert(e.skip(i - 1).drop_first() =~= e.skip(i));
        assert(e.skip(i - 1)[0] == e[i - 1]);
    } else {
        assert(e.skip(0) =~= e);
    }
}

proof fn lemma_lookup_at(e: Seq<(String, String)>, i: int)
    requires
        keys_distinct(e),
        0 <= i < e.len(),
    ensures
        lookup(e, e[i].0@) == Some(e[i].1@),
{
    lemma_lookup_skip(e, e[i].0@, i);
}

proof fn lemma_lookup_absent(e: Seq<(String, String)>, k: Seq<char>)
    requires
        forall|j: int| 0 <= j < e.len() ==> e[j].0@ != k,
    ensures
        lookup(e, k) is None,
{
    lemma_lookup_skip(e, k, e.len() as int);
}

/// One language's build properties: keys such as `compiler`,
/// `compile_options`, `link_options`, `sanitizers` and their `disable_`
/// counterparts, each with a whitespace-separated token list.
#[derive(Clone, Debug)]
pub struct LanguageBuildProperties {
    pub entries: Vec<(String, String)>,
}

impl LanguageBuildProperties {
    /// No key is set twice.
    pub open spec fn wf(&self) -> bool {
        keys_distinct(self.entries@)
    }

    /// The value of `key`, if it is set.
    pub open spec fn spec_get(&self, key: Seq<char>) -> Option<Seq<char>> {
        lookup(self.entries@, key)
    }

    /// Properties with no key set.
    pub fn new() -> (r: LanguageBuildProperties)
        ensures
            r.wf(),
            r.entries@.len() == 0,
    {
        LanguageBuildProperties { entries: Vec::new() }
    }

    /// The value of `key`, if it is set.
    pub fn get(&self, key: &str) -> (r: Option<&String>)
        ensures
            r matches Some(v) ==> self.spec_get(key@) == Some(v@),
            r is None ==> self.spec_get(key@) is None,
    {
        let mut i: usize = 0;
        while i < self.entries.len()
            invariant
                i <= self.entries@.len(),
                forall|j: int| 0 <= j < i ==> self.entries@[j].0@ != key@,
            decreases self.entries@.len() - i,
        {
            if self.entries[i].0.as_str().unicode_len() == key.unicode_len() && equal_text(
                self.entries[i].0.as_str(),
                key,
            ) {
                proof {
                    lemma_lookup_skip(self.entries@, key@, i as int);
                }
                return Some(&self.entries[i].1);
            }
            i = i + 1;
        }
        proof {
            lemma_lookup_absent(self.entries@, key@);
        }
        None
    }

    /// Whether `key` is set.
    pub fn contains_key(&self, key: &str) -> (r: bool)
        ensures
            r == self.spec_get(key@) is Some,
    {
        self.get(key).is_some()
    }

    /// Sets `key` to `value`, replacing its earlier value.
    pub fn insert(&mut self, key: String, value: String)
        requires
            old(self).wf(),
        ensures
            final(self).wf(),
            final(self).spec_get(key@) == Some(value@),
            forall|k: Seq<char>| k != key@ ==> final(self).spec_get(k) == old(self).spec_get(k),
    {
        let mut i: usize = 0;
        while i < self.entries.len()
            invariant
                i <= self.entries@.len(),
                self.entries@ == old(self).entries@,
                keys_distinct(self.entries@),
                forall|j: int| 0 <= j < i ==> self.entries@[j].0@ != key@,
            decreases self.entries@.len() - i,
        {
            if self.entries[i].0 == key {
                let ghost before = self.entries@;
                self.entries.set(i, (key, value));
                proof {
                    let e = self.entries@;
                    assert(keys_distinct(e)) by {
                        assert forall|a: int, b: int| 0 <= a < b < e.len() implies e[a].0@
                            != e[b].0@ by {
                            assert(before[a].0@ != before[b].0@);
                        }
                    }
                    lemma_lookup_at(e, i as int);
                    assert forall|k: Seq<char>| k != key@ implies lookup(e, k) == lookup(
                        before,
                        k,
                    ) by {
                        lemma_lookup_same(before, e, k);
                    }
                }
                return;
            }
            i = i + 1;
        }
        let ghost before = self.entries@;
        self.entries.push((key, value));
        proof {
            let e = self.entries@;
            assert(keys_distinct(e)) by {
                assert forall|a: int, b: int| 0 <= a < b < e.len() implies e[a].0@ != e[b].0@ by {
                    if b < before.len() {
                        assert(before[a].0@ != before[b].0@);
                    }
                }
            }
            lemma_lookup_at(e, before.len() as int);
            assert forall|k: Seq<char>| k != key@ implies lookup(e, k) == lookup(before, k) by {
                lemma_lookup_same(before, e, k);
            }
        }
    }

    /// These properties merged with `other`: for every key here, its tokens
    /// and `other`'s tokens for the key, without the tokens that `other`
    /// lists under `disable_<key>`. Keys that only `other` has are not
    /// taken over.
    pub fn updated_with(&self, other: &LanguageBuildProperties) -> (r: LanguageBuildProperties)
        requires
            self.wf(),
        ensures
            r.wf(),
            r.entries@.len() == self.entries@.len(),
            forall|i: int|
                0 <= i < r.entries@.len() ==> (#[trigger] r.entries@[i]).0@ == self.entries@[i].0@
                    && r.entries@[i].1@ == merged_value(
                    self.entries@[i].0@,
                    self.entries@[i].1@,
                    other.entries@,
                ),
    {
        let mut entries: Vec<(String, String)> = Vec::new();
        let mut i: usize = 0;
        while i < self.entries.len()
            invariant
                i <= self.entries@.len(),
                self.wf(),
                entries@.len() == i,
                forall|j: int|
                    0 <= j < i ==> (#[trigger] entries@[j]).0@ == self.entries@[j].0@
                        && entries@[j].1@ == merged_value(
                        self.entries@[j].0@,
                        self.entries@[j].1@,
                        other.entries@,
                    ),
            decreases self.entries@.len() - i,
        {
            let key = &self.entries[i].0;
            let value = &self.entries[i].1;
            let mut all = split_words(value.as_str());
            match other.get(key.as_str()) {
                Some(extra) => append_strings(&mut all, split_words(extra.as_str())),
                None => {
                    proof {
                        assert(view_strings(all@) =~= view_strings(all@) + Seq::<Seq<char>>::empty());
                    }
                },
            }
            let set = dedup_strings(all);
            let mut disable = String::from_str("disable_");
            disable.append(key.as_str());
            let removed = match other.get(disable.as_str()) {
                Some(off) => split_words(off.as_str()),
                None => Vec::new(),
            };
            proof {
                if other.spec_get(disable_key(key@)) is None {
                    assert(view_strings(removed@) =~= Seq::<Seq<char>>::empty());
                }
            }
            let kept = strings_without(set, &removed);
            let merged = set_to_string(&kept);
            entries.push((key.clone(), merged));
            i = i + 1;
        }
        let r = LanguageBuildProperties { entries };
        proof {
            assert forall|a: int, b: int| 0 <= a < b < r.entries@.len() implies r.entries@[a].0@
                != r.entries@[b].0@ by {
                assert(r.entries@[a].0@ == self.entries@[a].0@);
                assert(r.entries@[b].0@ == self.entries@[b].0@);
            }
        }
        r
    }
}

/// The key and value texts of the entries.
pub open spec fn entry_views(e: Seq<(String, String)>) -> Seq<(Seq<char>, Seq<char>)> {
    e.map_values(|p: (String, String)| (p.0@, p.1@))
}

fn entry(key: &str, value: &str) -> (r: (String, String))
    ensures
        r.0@ == key@,
        r.1@ == value@,
{
    (String::from_str(key), String::from_str(value))
}

fn language(compiler: &str, options: &str, sanitizers: Option<&str>) -> (r: LanguageBuildProperties)
    ensures
        r.wf(),
        entry_views(r.entries@) == seq![("compiler"@, compiler@), ("compile_options"@, options@)]
            + match sanitizers {
            Some(s) => seq![("sanitizers"@, s@)],
            None => Seq::<(Seq<char>, Seq<char>)>::empty(),
        },
{
    let mut entries: Vec<(String, String)> = Vec::new();
    entries.push(entry("compiler", compiler));
    entries.push(entry("compile_options", options));
    match sanitizers {
        Some(s) => entries.push(entry("sanitizers", s)),
        None => {},
    }
    let r = LanguageBuildProperties { entries };
    proof {
        reveal_strlit("compiler");
        reveal_strlit("compile_options");
        reveal_strlit("sanitizers");
        assert("compiler"@.len() == 8);
        assert("compile_options"@.len() == 15);
        assert("sanitizers"@.len() == 10);
        assert(entry_views(r.entries@) =~= seq![("compiler"@, compiler@), ("compile_options"@, options@)]
            + match sanitizers {
            Some(s) => seq![("sanitizers"@, s@)],
            None => Seq::<(Seq<char>, Seq<char>)>::empty(),
        });
    }
    r
}

/// Build properties of every language bucket.
#[derive(Clone, Debug)]
pub struct BuildProperties {
    pub c: LanguageBuildProperties,
    pub cxx: LanguageBuildProperties,
    pub s: LanguageBuildProperties,
    pub java: LanguageBuildProperties,
}

impl BuildProperties {
    /// Every bucket's keys are distinct.
    pub open spec fn wf(&self) -> bool {
        self.c.wf() && self.cxx.wf() && self.s.wf() && self.java.wf()
    }
}

impl Default for BuildProperties {
    /// Clang for C, C++ and assembler, javac for Java; optimised debug
    /// builds with warnings as errors; the undefined-behaviour and address
    /// sanitizers for C and C++.
    fn default() -> (r: Self)
        ensures
            r.wf(),
            entry_views(r.c.entries@) == seq![
                ("compiler"@, "clang"@),
                ("compile_options"@, "-O2 -g -Werror"@),
                ("sanitizers"@, "undefined address"@),
            ],
            entry_views(r.cxx.entries@) == seq![
                ("compiler"@, "clang++"@),
                ("compile_options"@, "-O2 -g -Werror"@),
                ("sanitizers"@, "undefined address"@),
            ],
            entry_views(r.s.entries@) == seq![
                ("compiler"@, "clang"@),
                ("compile_options"@, "-O0 -g -Werror"@),
            ],
            entry_views(r.java.entries@) == seq![
                ("compiler"@, "javac"@),
                ("compile_options"@, "-g -Werror"@),
            ],
    {
        let r = BuildProperties {
            c: language("clang", "-O2 -g -Werror", Some("undefined address")),
            cxx: language("clang++", "-O2 -g -Werror", Some("undefined address")),
            s: language("clang", "-O0 -g -Werror", None),
            java: language("javac", "-g -Werror", None),
        };
        proof {
            assert(entry_views(r.c.entries@) =~= seq![
                ("compiler"@, "clang"@),
                ("compile_options"@, "-O2 -g -Werror"@),
                ("sanitizers"@, "undefined address"@),
            ]);
            assert(entry_views(r.cxx.entries@) =~= seq![
                ("compiler"@, "clang++"@),
                ("compile_options"@, "-O2 -g -Werror"@),
                ("sanitizers"@, "undefined address"@),
            ]);
            assert(entry_views(r.s.entries@) =~= seq![
                ("compiler"@, "clang"@),
                ("compile_options"@, "-O0 -g -Werror"@),
            ]);
            assert(entry_views(r.java.entries@) =~= seq![
                ("compiler"@, "javac"@),
                ("compile_options"@, "-g -Werror"@),
            ]);
        }
        r
    }
}

proof fn lemma_lookup_same(a: Seq<(String, String)>, b: Seq<(String, String)>, k: Seq<char>)
    requires
        a.len() <= b.len(),
        forall|j: int| 0 <= j < a.len() && (a[j].0@ == k || b[j].0@ == k) ==> a[j] == b[j],
        forall|j: int| a.len() <= j < b.len() ==> b[j].0@ != k,
    ensures
        lookup(a, k) == lookup(b, k),
    decreases a.len(),
{
    if a.len() == 0 {
        lemma_lookup_absent(b, k);
    } else {
        if a[0].0@ != k {
            assert(b[0].0@ != k);
            lemma_lookup_same(a.drop_first(), b.drop_first(), k);
        }
    }
}

/// Whether two texts of equal length hold the same characters.
pub(crate) fn equal_text(a: &str, b: &str) -> (r: bool)
    requires
        a@.len() == b@.len(),
    ensures
        r == (a@ == b@),
{
    let n = a.unicode_len();
    let mut i: usize = 0;
    while i < n
        invariant
            n == a@.len(),
            n == b@.len(),
            i <= n,
            forall|j: int| 0 <= j < i ==> a@[j] == b@[j],
        decreases n - i,
    {
        if a.get_char(i) != b.get_char(i) {
            return false;
        }
        i = i + 1;
    }
    proof {
        assert(a@ =~= b@);
    }
    true
}

} // verus!
