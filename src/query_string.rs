use vstd::prelude::*;

verus! {

/// The pieces of `s` between the separators `sep`, in order. There is always
/// at least one piece.
pub open spec fn split(s: Seq<char>, sep: char) -> Seq<Seq<char>>
    decreases s.len(),
{
    if s.len() == 0 {
        seq![Seq::empty()]
    } else {
        let init = split(s.drop_last(), sep);
        if s.last() == sep {
            init.push(Seq::empty())
        } else {
            init.update(init.len() - 1, init.last().push(s.last()))
        }
    }
}

/// The position of the first `c` in `p`, or -1 when there is none.
pub open spec fn first_index(p: Seq<char>, c: char) -> int
    decreases p.len(),
{
    if p.len() == 0 {
        -1
    } else {
        let e = first_index(p.drop_last(), c);
        if e >= 0 {
            e
        } else if p.last() == c {
            p.len() - 1
        } else {
            -1
        }
    }
}

/// The position of the first '=' in `p`, or -1 when there is none.
pub open spec fn eq_index(p: Seq<char>) -> int {
    first_index(p, '=')
}

/// The pairs that `pieces` define, each "key=value" piece in turn, a later
/// pair replacing an earlier one with the same key; pieces without '=' are
/// skipped.
pub open spec fn pairs_of(pieces: Seq<Seq<char>>) -> Map<Seq<char>, Seq<char>>
    decreases pieces.len(),
{
    if pieces.len() == 0 {
        Map::empty()
    } else {
        let m = pairs_of(pieces.drop_last());
        let p = pieces.last();
        let e = eq_index(p);
        if e >= 0 {
            m.insert(p.take(e), p.skip(e + 1))
        } else {
            m
        }
    }
}

/// The pairs of a query string such as "a=1&b=2".
pub open spec fn query_pairs(s: Seq<char>) -> Map<Seq<char>, Seq<char>> {
    pairs_of(split(s, '&'))
}

/// The map that a list of entries stands for: later entries win.
pub open spec fn entries_map(s: Seq<(String, String)>) -> Map<Seq<char>, Seq<char>>
    decreases s.len(),
{
    if s.len() == 0 {
        Map::empty()
    } else {
        entries_map(s.drop_last()).insert(s.last().0@, s.last().1@)
    }
}

/// The characters of `s`, in order.
pub fn chars_of(s: &str) -> (r: Vec<char>)
    ensures
        r@ == s@,
{
    let n = s.unicode_len();
    let mut r: Vec<char> = Vec::new();
    let mut i: usize = 0;
    while i < n
        invariant
            i <= n,
            n == s@.len(),
            r@ == s@.take(i as int),
        decreases n - i,
    {
        r.push(s.get_char(i));
        i = i + 1;
        assert(r@ =~= s@.take(i as int));
    }
    assert(s@.take(n as int) =~= s@);
    r
}

/// Relies on String's FromIterator<&char>: the string of these characters,
/// in order.
#[verifier::external_body]
fn string_of(v: &[char]) -> (r: String)
    ensures
        r@ == v@,
{
    String::from_iter(v)
}

/// The string of the characters of `v` from position `from` up to, not
/// including, `to`.
pub(crate) fn string_of_range(v: &Vec<char>, from: usize, to: usize) -> (r: String)
    requires
        from <= to <= v@.len(),
    ensures
        r@ == v@.subrange(from as int, to as int),
{
    string_of(vstd::slice::slice_subrange(v.as_slice(), from, to))
}

/// A position found by `first_index` lies inside the sequence.
pub proof fn lemma_first_index_bounds(p: Seq<char>, c: char)
    ensures
        -1 <= first_index(p, c) < p.len(),
    decreases p.len(),
{
    if p.len() > 0 {
        lemma_first_index_bounds(p.drop_last(), c);
    }
}

/// Adds the pair that the piece `cur` defines, if it holds '='.
fn push_pair(data: &mut Vec<(String, String)>, cur: &Vec<char>, eq: Option<usize>)
    requires
        match eq {
            Some(e) => eq_index(cur@) == e as int,
            None => eq_index(cur@) == -1,
        },
    ensures
        entries_map(final(data)@) == if eq_index(cur@) >= 0 {
            entries_map(old(data)@).insert(
                cur@.take(eq_index(cur@)),
                cur@.skip(eq_index(cur@) + 1),
            )
        } else {
            entries_map(old(data)@)
        },
{
    proof {
        lemma_first_index_bounds(cur@, '=');
    }
    match eq {
        Some(e) => {
            let n = cur.len();
            assert(e < n);
            let k = string_of_range(cur, 0, e);
            let v = string_of_range(cur, e + 1, n);
            proof {
                assert(k@ =~= cur@.take(e as int));
                assert(v@ =~= cur@.skip(e + 1));
            }
            data.push((k, v));
            proof {
                assert(data@.drop_last() =~= old(data)@);
            }
        },
        None => {},
    }
}

/// The parameters of a query string, by name.
pub struct QueryString {
    data: Vec<(String, String)>,
}

/// The entries after a given position hold no entry for `k`, so the map has
/// the same value for `k` as the entries before that position.
proof fn lemma_entries_suffix(s: Seq<(String, String)>, i: int, k: Seq<char>)
    requires
        0 <= i <= s.len(),
        forall|j: int| i <= j < s.len() ==> (#[trigger] s[j]).0@ != k,
    ensures
        entries_map(s).contains_key(k) == entries_map(s.take(i)).contains_key(k),
        entries_map(s).contains_key(k) ==> entries_map(s)[k] == entries_map(s.take(i))[k],
    decreases s.len(),
{
    if s.len() > i {
        assert(s.drop_last().take(i) =~= s.take(i));
        lemma_entries_suffix(s.drop_last(), i, k);
    } else {
        assert(s.take(i) =~= s);
    }
}

impl QueryString {
    /// The parameters, by name.
    pub closed spec fn view(&self) -> Map<Seq<char>, Seq<char>> {
        entries_map(self.data@)
    }

    /// The value given for `key`, if any (the last one given).
    pub fn get(&self, key: &String) -> (r: Option<&String>)
        ensures
            match r {
                Some(v) => self@.contains_key(key@) && self@[key@] == v@,
                None => !self@.contains_key(key@),
            },
    {
        let mut i = self.data.len();
        while i > 0
            invariant
                i <= self.data@.len(),
                forall|j: int| i <= j < self.data@.len() ==> (#[trigger] self.data@[j]).0@ != key@,
            decreases i,
        {
            if self.data[i - 1].0 == *key {
                proof {
                    lemma_entries_suffix(self.data@, i as int, key@);
                    let t = self.data@.take(i as int);
                    assert(t.drop_last() =~= self.data@.take(i - 1));
                    assert(t.last() == self.data@[i - 1]);
                }
                return Some(&self.data[i - 1].1);
            }
            i = i - 1;
        }
        proof {
            lemma_entries_suffix(self.data@, 0, key@);
            assert(self.data@.take(0) =~= Seq::<(String, String)>::empty());
        }
        None
    }

    /// Parses "key=value" pairs separated by '&'. A pair is split at its
    /// first '='; a piece without '=' is skipped; a key given again replaces
    /// the earlier value.
    pub fn parse(value: &str) -> (r: QueryString)
        ensures
            r@ == query_pairs(value@),
    {
        let chars = chars_of(value);
        let n = chars.len();
        let mut data: Vec<(String, String)> = Vec::new();
        let mut cur: Vec<char> = Vec::new();
        let mut eq: Option<usize> = None;
        let mut i: usize = 0;
        while i < n
            invariant
                i <= n,
                n == chars@.len(),
                chars@ == value@,
                split(chars@.take(i as int), '&').len() >= 1,
                cur@ == split(chars@.take(i as int), '&').last(),
                entries_map(data@) == pairs_of(split(chars@.take(i as int), '&').drop_last()),
                match eq {
                    Some(e) => eq_index(cur@) == e as int,
                    None => eq_index(cur@) == -1,
                },
            decreases n - i,
        {
            let c = chars[i];
            let ghost pre = chars@.take(i as int);
            assert(chars@.take(i + 1).drop_last() =~= pre);
            assert(chars@.take(i + 1).last() == c);
            if c == '&' {
                let ghost pieces = split(pre, '&');
                proof {
                    assert(pieces.drop_last().push(pieces.last()) =~= pieces);
                    assert(split(chars@.take(i + 1), '&').drop_last() =~= pieces);
                }
                push_pair(&mut data, &cur, eq);
                proof {
                    assert(pairs_of(pieces) == if eq_index(pieces.last()) >= 0 {
                        pairs_of(pieces.drop_last()).insert(
                            pieces.last().take(eq_index(pieces.last())),
                            pieces.last().skip(eq_index(pieces.last()) + 1),
                        )
                    } else {
                        pairs_of(pieces.drop_last())
                    });
                }
                cur = Vec::new();
                eq = None;
            } else {
                if eq.is_none() && c == '=' {
                    eq = Some(cur.len());
                }
                cur.push(c);
                proof {
                    assert(cur@.drop_last() =~= split(pre, '&').last());
                    assert(split(chars@.take(i + 1), '&').drop_last() =~= split(pre, '&').drop_last());
                }
            }
            i = i + 1;
        }
        assert(chars@.take(n as int) =~= value@);
        let ghost pieces = split(value@, '&');
        assert(pieces.drop_last().push(pieces.last()) =~= pieces);
        push_pair(&mut data, &cur, eq);
        QueryString { data }
    }
}

impl<'a> From<&'a str> for QueryString {
    fn from(value: &'a str) -> (r: QueryString)
        ensures
            r@ == query_pairs(value@),
    {
        QueryString::parse(value)
    }
}

impl<'a> vstd::std_specs::convert::FromSpecImpl<&'a str> for QueryString {
    open spec fn obeys_from_spec() -> bool {
        false
    }

    open spec fn from_spec(v: &'a str) -> QueryString {
        arbitrary()
    }
}

} // verus!
