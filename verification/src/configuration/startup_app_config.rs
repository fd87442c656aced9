use vstd::prelude::*;

use crate::extensions::number::{parse_u64, parse_unsigned};
use crate::extensions::str::{
    find_char, first_index_of, has_dashes_prefix, lemma_first_index_of, starts_with_dashes, str_equals,
};

verus! {

/// The key/value pairs of `s` as a map; later pairs win over earlier ones.
pub open spec fn pairs_map(s: Seq<(String, String)>) -> Map<Seq<char>, Seq<char>>
    decreases s.len(),
{
    if s.len() == 0 {
        Map::empty()
    } else {
        pairs_map(s.drop_last()).insert(s.last().0@, s.last().1@)
    }
}

/// No key occurs twice.
pub open spec fn keys_distinct(s: Seq<(String, String)>) -> bool {
    forall|i: int, j: int| 0 <= i < j < s.len() ==> (#[trigger] s[i]).0@ != (#[trigger] s[j]).0@
}

proof fn lemma_pairs_map_lookup(s: Seq<(String, String)>)
    requires
        keys_distinct(s),
    ensures
        forall|k: Seq<char>| #[trigger] pairs_map(s).contains_key(k) <==> exists|i: int| 0 <= i < s.len() && (#[trigger] s[i]).0@ == k,
        forall|i: int| 0 <= i < s.len() ==> pairs_map(s)[(#[trigger] s[i]).0@] == s[i].1@,
    decreases s.len(),
{
    if s.len() > 0 {
        let p = s.drop_last();
        assert(keys_distinct(p)) by {
            assert forall|i: int, j: int| 0 <= i < j < p.len() implies (#[trigger] p[i]).0@ != (#[trigger] p[j]).0@ by {
                assert(s[i] == p[i] && s[j] == p[j]);
            }
        }
        lemma_pairs_map_lookup(p);
        assert forall|k: Seq<char>| #[trigger] pairs_map(s).contains_key(k) <==> exists|i: int|
            0 <= i < s.len() && (#[trigger] s[i]).0@ == k by {
            if pairs_map(s).contains_key(k) && k != s.last().0@ {
                assert(pairs_map(p).contains_key(k));
                let i = choose|i: int| 0 <= i < p.len() && (#[trigger] p[i]).0@ == k;
                assert(s[i] == p[i]);
            }
            if exists|i: int| 0 <= i < s.len() && (#[trigger] s[i]).0@ == k {
                let i = choose|i: int| 0 <= i < s.len() && (#[trigger] s[i]).0@ == k;
                if i < s.len() - 1 {
                    assert(s[i] == p[i]);
                    assert(p[i].0@ == k);
                    assert(pairs_map(p).contains_key(k));
                }
            }
        }
        assert forall|i: int| 0 <= i < s.len() implies pairs_map(s)[(#[trigger] s[i]).0@] == s[i].1@ by {
            if i < s.len() - 1 {
                assert(s[i] == p[i]);
                assert(s[i].0@ != s[s.len() - 1].0@);
            }
        }
    }
}

proof fn lemma_pairs_map_update(s: Seq<(String, String)>, i: int, pair: (String, String))
    requires
        keys_distinct(s),
        0 <= i < s.len(),
        s[i].0@ == pair.0@,
    ensures
        pairs_map(s.update(i, pair)) == pairs_map(s).insert(pair.0@, pair.1@),
        keys_distinct(s.update(i, pair)),
    decreases s.len(),
{
    let u = s.update(i, pair);
    assert(keys_distinct(u)) by {
        assert forall|a: int, b: int| 0 <= a < b < u.len() implies (#[trigger] u[a]).0@ != (#[trigger] u[b]).0@ by {
            assert(s[a].0@ != s[b].0@);
        }
    }
    if i == s.len() - 1 {
        assert(u.drop_last() =~= s.drop_last());
        assert(pairs_map(u) =~= pairs_map(s).insert(pair.0@, pair.1@));
    } else {
        let p = s.drop_last();
        assert(keys_distinct(p)) by {
            assert forall|a: int, b: int| 0 <= a < b < p.len() implies (#[trigger] p[a]).0@ != (#[trigger] p[b]).0@ by {
                assert(s[a] == p[a] && s[b] == p[b]);
            }
        }
        lemma_pairs_map_update(p, i, pair);
        assert(u.drop_last() =~= p.update(i, pair));
        assert(s[i].0@ != s[s.len() - 1].0@);
        assert(pairs_map(u) =~= pairs_map(s).insert(pair.0@, pair.1@));
    }
}

/// Sets `key` to `value` in the pair list, replacing an earlier value of `key`.
fn insert_pair(values: &mut Vec<(String, String)>, key: String, value: String)
    requires
        keys_distinct(old(values)@),
    ensures
        keys_distinct(final(values)@),
        pairs_map(final(values)@) == pairs_map(old(values)@).insert(key@, value@),
{
    let mut j: usize = 0;
    while j < values.len()
        invariant
            values@ == old(values)@,
            keys_distinct(values@),
            j <= values@.len(),
            forall|t: int| 0 <= t < j ==> (#[trigger] values@[t]).0@ != key@,
        decreases values@.len() - j,
    {
        if values[j].0 == key {
            proof {
                lemma_pairs_map_update(values@, j as int, (key, value));
            }
            values.set(j, (key, value));
            return;
        }
        j = j + 1;
    }
    let ghost prev = values@;
    values.push((key, value));
    proof {
        assert(values@.drop_last() =~= prev);
        assert forall|a: int, b: int| 0 <= a < b < values@.len() implies (#[trigger] values@[a]).0@ != (
        #[trigger] values@[b]).0@ by {
            if b == values@.len() - 1 {
                assert(prev[a] == values@[a]);
            } else {
                assert(prev[a] == values@[a] && prev[b] == values@[b]);
            }
        }
    }
}

/// What parsing the tokens from position `i` on adds to `acc`.
///
/// Recognized token forms, read left to right:
/// - `--key=value` (split at the first `=`)
/// - `--key value` (takes the next token unless it also starts with `--`)
/// - `--flag` (stored as `true`)
///
/// Other tokens, and a bare `--`, are skipped.
pub open spec fn parse_args_from(tokens: Seq<Seq<char>>, i: int, acc: Map<Seq<char>, Seq<char>>) -> Map<
    Seq<char>,
    Seq<char>,
>
    decreases tokens.len() - i,
{
    if i < 0 || i >= tokens.len() {
        acc
    } else {
        let t = tokens[i];
        if !starts_with_dashes(t) || t.len() == 2 {
            parse_args_from(tokens, i + 1, acc)
        } else {
            let key = t.skip(2);
            match first_index_of(key, '=') {
                Some(p) => parse_args_from(tokens, i + 1, acc.insert(key.take(p), key.skip(p + 1))),
                None => if i + 1 < tokens.len() && !starts_with_dashes(tokens[i + 1]) {
                    parse_args_from(tokens, i + 2, acc.insert(key, tokens[i + 1]))
                } else {
                    parse_args_from(tokens, i + 1, acc.insert(key, seq!['t', 'r', 'u', 'e']))
                },
            }
        }
    }
}

/// The settings that the command-line tokens `tokens` give.
pub open spec fn parse_args(tokens: Seq<Seq<char>>) -> Map<Seq<char>, Seq<char>> {
    parse_args_from(tokens, 0, Map::empty())
}

pub open spec fn token_views(args: Seq<String>) -> Seq<Seq<char>> {
    args.map_values(|a: String| a@)
}

/// Settings given on the command line, as `--key=value`, `--key value` or `--flag`.
#[derive(Debug)]
pub struct StartupAppConfiguration {
    values: Vec<(String, String)>,
}

impl View for StartupAppConfiguration {
    type V = Map<Seq<char>, Seq<char>>;

    closed spec fn view(&self) -> Map<Seq<char>, Seq<char>> {
        pairs_map(self.values@)
    }
}

impl Default for StartupAppConfiguration {
    fn default() -> (r: Self)
        ensures
            r@ == Map::<Seq<char>, Seq<char>>::empty(),
    {
        StartupAppConfiguration { values: Vec::new() }
    }
}

impl Clone for StartupAppConfiguration {
    fn clone(&self) -> (r: Self)
        ensures
            r@ == self@,
    {
        proof {
            use_type_invariant(self);
        }
        let mut values: Vec<(String, String)> = Vec::new();
        let mut j: usize = 0;
        while j < self.values.len()
            invariant
                j <= self.values@.len(),
                values@.len() == j,
                forall|t: int| 0 <= t < j ==> (#[trigger] values@[t]).0@ == self.values@[t].0@ && values@[t].1@
                    == self.values@[t].1@,
            decreases self.values@.len() - j,
        {
            values.push((self.values[j].0.clone(), self.values[j].1.clone()));
            j = j + 1;
        }
        proof {
            lemma_same_pairs(values@, self.values@);
        }
        StartupAppConfiguration { values }
    }
}

proof fn lemma_same_pairs(a: Seq<(String, String)>, b: Seq<(String, String)>)
    requires
        a.len() == b.len(),
        forall|t: int| 0 <= t < a.len() ==> (#[trigger] a[t]).0@ == b[t].0@ && a[t].1@ == b[t].1@,
    ensures
        pairs_map(a) == pairs_map(b),
        keys_distinct(b) ==> keys_distinct(a),
    decreases a.len(),
{
    if a.len() > 0 {
        lemma_same_pairs(a.drop_last(), b.drop_last());
        assert(a.last().0@ == b.last().0@);
    }
    if keys_distinct(b) {
        assert forall|i: int, j: int| 0 <= i < j < a.len() implies (#[trigger] a[i]).0@ != (#[trigger] a[j]).0@ by {
            assert(b[i].0@ != b[j].0@);
        }
    }
}

impl StartupAppConfiguration {
    #[verifier::type_invariant]
    spec fn distinct_keys(self) -> bool {
        keys_distinct(self.values@)
    }

    /// Parses a list of command-line arguments into a fresh configuration; `self` is
    /// left unchanged.
    pub fn parse(&mut self, args: Vec<String>) -> (r: Self)
        ensures
            r@ == parse_args(token_views(args@)),
            final(self)@ == old(self)@,
    {
        let ghost tokens = token_views(args@);
        let mut values: Vec<(String, String)> = Vec::new();
        let n = args.len();
        let mut i: usize = 0;
        while i < n
            invariant
                n == args@.len(),
                tokens == token_views(args@),
                tokens.len() == n,
                i <= n,
                keys_distinct(values@),
                parse_args(tokens) == parse_args_from(tokens, i as int, pairs_map(values@)),
            decreases n - i,
        {
            let token = args[i].as_str();
            let ghost acc = pairs_map(values@);
            assert(tokens[i as int] == token@);
            if !has_dashes_prefix(token) || token.unicode_len() == 2 {
                i = i + 1;
                continue;
            }
            let len = token.unicode_len();
            let key = token.substring_char(2, len);
            assert(key@ =~= token@.skip(2));
            proof {
                lemma_first_index_of(key@, '=');
            }
            match find_char(key, '=') {
                Some(p) => {
                    let klen = key.unicode_len();
                    let k = String::from_str(key.substring_char(0, p));
                    let v = String::from_str(key.substring_char(p + 1, klen));
                    assert(k@ =~= key@.take(p as int));
                    assert(v@ =~= key@.skip(p + 1));
                    insert_pair(&mut values, k, v);
                    i = i + 1;
                },
                None => {
                    if i + 1 < n && !has_dashes_prefix(args[i + 1].as_str()) {
                        assert(tokens[i + 1] == args@[i + 1]@);
                        let v = args[i + 1].clone();
                        insert_pair(&mut values, String::from_str(key), v);
                        i = i + 2;
                    } else {
                        let v = String::from_str("true");
                        proof {
                            reveal_strlit("true");
                            assert(v@ =~= seq!['t', 'r', 'u', 'e']);
                        }
                        insert_pair(&mut values, String::from_str(key), v);
                        i = i + 1;
                    }
                },
            }
        }
        StartupAppConfiguration { values }
    }

    /// Returns the raw string value for `key`, if present.
    pub fn get(&self, key: &str) -> (r: Option<&str>)
        ensures
            match r {
                Some(v) => self@.contains_key(key@) && v@ == self@[key@],
                None => !self@.contains_key(key@),
            },
    {
        proof {
            use_type_invariant(self);
            lemma_pairs_map_lookup(self.values@);
        }
        let mut j: usize = 0;
        while j < self.values.len()
            invariant
                j <= self.values@.len(),
                forall|t: int| 0 <= t < j ==> (#[trigger] self.values@[t]).0@ != key@,
                forall|k: Seq<char>| #[trigger] pairs_map(self.values@).contains_key(k) <==> exists|i: int|
                    0 <= i < self.values@.len() && (#[trigger] self.values@[i]).0@ == k,
                forall|i: int| 0 <= i < self.values@.len() ==> pairs_map(self.values@)[(#[trigger] self.values@[i]).0@] == self.values@[i].1@,
            decreases self.values@.len() - j,
        {
            if str_equals(self.values[j].0.as_str(), key) {
                assert(self.values@[j as int].0@ == key@);
                return Some(self.values[j].1.as_str());
            }
            j = j + 1;
        }
        None
    }

    /// Returns the value for `key` read as a number of type `T`, or `None` if the key
    /// is missing or its value is not such a number.
    pub fn get_parsed<T: FromDecimalStr>(&self, key: &str) -> (r: Option<T>)
        ensures
            match r {
                Some(x) => self@.contains_key(key@) && parse_unsigned(self@[key@]) == Some(T::int_value(x)),
                None => !self@.contains_key(key@) || match parse_unsigned(self@[key@]) {
                    Some(n) => !T::fits(n),
                    None => true,
                },
            },
    {
        match self.get(key) {
            Some(v) => T::from_decimal_str(v),
            None => None,
        }
    }

    pub fn contains(&self, key: &str) -> (r: bool)
        ensures
            r == self@.contains_key(key@),
    {
        self.get(key).is_some()
    }

    pub fn len(&self) -> (r: usize)
        ensures
            r == self@.len(),
    {
        proof {
            use_type_invariant(self);
            lemma_pairs_map_len(self.values@);
        }
        self.values.len()
    }

    pub fn is_empty(&self) -> (r: bool)
        ensures
            r == (self@.len() == 0),
    {
        self.len() == 0
    }
}

proof fn lemma_pairs_map_len(s: Seq<(String, String)>)
    requires
        keys_distinct(s),
    ensures
        pairs_map(s).len() == s.len(),
        pairs_map(s).dom().finite(),
    decreases s.len(),
{
    if s.len() > 0 {
        let p = s.drop_last();
        assert(keys_distinct(p)) by {
            assert forall|i: int, j: int| 0 <= i < j < p.len() implies (#[trigger] p[i]).0@ != (#[trigger] p[j]).0@ by {
                assert(s[i] == p[i] && s[j] == p[j]);
            }
        }
        lemma_pairs_map_len(p);
        lemma_pairs_map_lookup(p);
        if pairs_map(p).contains_key(s.last().0@) {
            let i = choose|i: int| 0 <= i < p.len() && (#[trigger] p[i]).0@ == s.last().0@;
            assert(s[i] == p[i]);
        }
    }
}

/// Unsigned numbers that can be read from their decimal text.
pub trait FromDecimalStr: Sized {
    spec fn int_value(v: Self) -> int;

    spec fn fits(n: int) -> bool;

    /// Reads `s` as `FromStr` does for the type: an optional `+`, then digits, with a
    /// value in the type's range.
    fn from_decimal_str(s: &str) -> (r: Option<Self>)
        ensures
            match r {
                Some(x) => parse_unsigned(s@) == Some(Self::int_value(x)),
                None => match parse_unsigned(s@) {
                    Some(n) => !Self::fits(n),
                    None => true,
                },
            },
    ;
}

impl FromDecimalStr for u64 {
    open spec fn int_value(v: u64) -> int {
        v as int
    }

    open spec fn fits(n: int) -> bool {
        0 <= n <= u64::MAX
    }

    fn from_decimal_str(s: &str) -> (r: Option<u64>) {
        let r = parse_u64(s);
        proof {
            if let Some(x) = r {
                assert(parse_unsigned(s@) == Some(x as int));
                assert(Self::int_value(x) == x as int);
            }
        }
        r
    }
}

impl FromDecimalStr for u32 {
    open spec fn int_value(v: u32) -> int {
        v as int
    }

    open spec fn fits(n: int) -> bool {
        0 <= n <= u32::MAX
    }

    fn from_decimal_str(s: &str) -> (r: Option<u32>) {
        let r = parse_u64(s);
        proof {
            if let Some(n) = parse_unsigned(s@) {
                if n <= u64::MAX {
                    assert(r == Some(n as u64));
                }
            }
        }
        match r {
            Some(n) => if n <= u32::MAX as u64 {
                Some(n as u32)
            } else {
                None
            },
            None => None,
        }
    }
}

impl FromDecimalStr for u16 {
    open spec fn int_value(v: u16) -> int {
        v as int
    }

    open spec fn fits(n: int) -> bool {
        0 <= n <= u16::MAX
    }

    fn from_decimal_str(s: &str) -> (r: Option<u16>) {
        let r = parse_u64(s);
        proof {
            if let Some(n) = parse_unsigned(s@) {
                if n <= u64::MAX {
                    assert(r == Some(n as u64));
                }
            }
        }
        match r {
            Some(n) => if n <= u16::MAX as u64 {
                Some(n as u16)
            } else {
                None
            },
            None => None,
        }
    }
}

impl FromDecimalStr for usize {
    open spec fn int_value(v: usize) -> int {
        v as int
    }

    open spec fn fits(n: int) -> bool {
        0 <= n <= usize::MAX
    }

    fn from_decimal_str(s: &str) -> (r: Option<usize>) {
        let r = parse_u64(s);
        proof {
            if let Some(n) = parse_unsigned(s@) {
                if n <= u64::MAX {
                    assert(r == Some(n as u64));
                }
            }
        }
        match r {
            Some(n) => if n <= usize::MAX as u64 {
                Some(n as usize)
            } else {
                None
            },
            None => None,
        }
    }
}

/// The last token of `a` is a `--key` that would take the first token of `b` as its value.
pub open spec fn takes_value_across(a: Seq<Seq<char>>, b: Seq<Seq<char>>) -> bool {
    &&& a.len() > 0
    &&& b.len() > 0
    &&& starts_with_dashes(a.last())
    &&& a.last().len() != 2
    &&& first_index_of(a.last().skip(2), '=') is None
    &&& !starts_with_dashes(b[0])
}

proof fn lemma_parse_from_accumulates(b: Seq<Seq<char>>, j: int, acc: Map<Seq<char>, Seq<char>>)
    ensures
        parse_args_from(b, j, acc) == acc.union_prefer_right(parse_args_from(b, j, Map::empty())),
    decreases b.len() - j,
{
    if j < 0 || j >= b.len() {
        assert(acc.union_prefer_right(Map::empty()) =~= acc);
    } else {
        let t = b[j];
        if !starts_with_dashes(t) || t.len() == 2 {
            lemma_parse_from_accumulates(b, j + 1, acc);
        } else {
            let key = t.skip(2);
            let (next, k, v) = match first_index_of(key, '=') {
                Some(p) => (j + 1, key.take(p), key.skip(p + 1)),
                None => if j + 1 < b.len() && !starts_with_dashes(b[j + 1]) {
                    (j + 2, key, b[j + 1])
                } else {
                    (j + 1, key, seq!['t', 'r', 'u', 'e'])
                },
            };
            lemma_parse_from_accumulates(b, next, acc.insert(k, v));
            lemma_parse_from_accumulates(b, next, Map::empty().insert(k, v));
            let rest = parse_args_from(b, next, Map::empty());
            assert(acc.union_prefer_right(Map::empty().insert(k, v).union_prefer_right(rest)) =~= acc.insert(
                k,
                v,
            ).union_prefer_right(rest));
        }
    }
}

proof fn lemma_parse_from_shift(a: Seq<Seq<char>>, b: Seq<Seq<char>>, j: int, acc: Map<Seq<char>, Seq<char>>)
    requires
        0 <= j,
    ensures
        parse_args_from(a + b, a.len() + j, acc) == parse_args_from(b, j, acc),
    decreases b.len() - j,
{
    let ab = a + b;
    if j < b.len() {
        assert(ab[a.len() + j] == b[j]);
        if j + 1 < b.len() {
            assert(ab[a.len() + j + 1] == b[j + 1]);
        }
        lemma_parse_from_shift(a, b, j + 1, acc);
        let t = b[j];
        if starts_with_dashes(t) && t.len() != 2 {
            let key = t.skip(2);
            match first_index_of(key, '=') {
                Some(p) => lemma_parse_from_shift(a, b, j + 1, acc.insert(key.take(p), key.skip(p + 1))),
                None => {
                    lemma_parse_from_shift(a, b, j + 1, acc.insert(key, seq!['t', 'r', 'u', 'e']));
                    if j + 1 < b.len() {
                        lemma_parse_from_shift(a, b, j + 2, acc.insert(key, b[j + 1]));
                    }
                },
            }
        }
    }
}

proof fn lemma_parse_from_concat(a: Seq<Seq<char>>, b: Seq<Seq<char>>, i: int, acc: Map<Seq<char>, Seq<char>>)
    requires
        0 <= i <= a.len(),
        !takes_value_across(a, b),
    ensures
        parse_args_from(a + b, i, acc) == parse_args_from(b, 0, parse_args_from(a, i, acc)),
    decreases a.len() - i,
{
    let ab = a + b;
    if i == a.len() {
        lemma_parse_from_shift(a, b, 0, acc);
    } else {
        let t = a[i];
        assert(ab[i] == t);
        if !starts_with_dashes(t) || t.len() == 2 {
            lemma_parse_from_concat(a, b, i + 1, acc);
        } else {
            let key = t.skip(2);
            match first_index_of(key, '=') {
                Some(p) => lemma_parse_from_concat(a, b, i + 1, acc.insert(key.take(p), key.skip(p + 1))),
                None => {
                    if i + 1 < a.len() {
                        assert(ab[i + 1] == a[i + 1]);
                        if !starts_with_dashes(a[i + 1]) {
                            lemma_parse_from_concat(a, b, i + 2, acc.insert(key, a[i + 1]));
                        } else {
                            lemma_parse_from_concat(a, b, i + 1, acc.insert(key, seq!['t', 'r', 'u', 'e']));
                        }
                    } else {
                        assert(a.last() == t);
                        if b.len() > 0 {
                            assert(ab[i + 1] == b[0]);
                        }
                        lemma_parse_from_concat(a, b, i + 1, acc.insert(key, seq!['t', 'r', 'u', 'e']));
                    }
                },
            }
        }
    }
}

/// Settings are read left to right and a later setting of a key replaces an earlier one:
/// parsing two token lists one after the other gives the settings of the first, overridden
/// by those of the second, unless the first ends in a `--key` that takes the second's
/// first token as its value.
pub proof fn lemma_parse_concat(a: Seq<Seq<char>>, b: Seq<Seq<char>>)
    requires
        !takes_value_across(a, b),
    ensures
        parse_args(a + b) == parse_args(a).union_prefer_right(parse_args(b)),
{
    lemma_parse_from_concat(a, b, 0, Map::empty());
    lemma_parse_from_accumulates(b, 0, parse_args(a));
}

/// A token that does not start with `--` is skipped.
pub proof fn lemma_parse_skips_positional(token: Seq<char>, rest: Seq<Seq<char>>)
    requires
        !starts_with_dashes(token),
    ensures
        parse_args(seq![token] + rest) == parse_args(rest),
{
    lemma_parse_concat(seq![token], rest);
    assert(parse_args(seq![token]) == parse_args_from(seq![token], 1, Map::empty()));
    assert(Map::<Seq<char>, Seq<char>>::empty().union_prefer_right(parse_args(rest)) =~= parse_args(rest));
}

} // verus!
