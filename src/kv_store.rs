use vstd::prelude::*;
use vstd::utf8::encode_utf8;
use crate::query_string::{chars_of, first_index, lemma_first_index_bounds, string_of_range};

verus! {

/// The key and value that an append-only-file line "key:value" holds: it is
/// split at its first ':'; a line without ':' holds nothing.
pub open spec fn aof_pair(line: Seq<char>) -> Option<(Seq<char>, Seq<char>)> {
    let e = first_index(line, ':');
    if e >= 0 {
        Some((line.take(e), line.skip(e + 1)))
    } else {
        None
    }
}

/// Splits an append-only-file line into its key and value.
pub fn parse_aof_line(line: &str) -> (r: Option<(String, String)>)
    ensures
        match r {
            Some((k, v)) => aof_pair(line@) == Some((k@, v@)),
            None => aof_pair(line@) is None,
        },
{
    let chars = chars_of(line);
    let n = chars.len();
    let mut found: Option<usize> = None;
    let mut i: usize = 0;
    while i < n
        invariant
            i <= n,
            n == chars@.len(),
            match found {
                Some(e) => first_index(chars@.take(i as int), ':') == e as int,
                None => first_index(chars@.take(i as int), ':') == -1,
            },
        decreases n - i,
    {
        assert(chars@.take(i + 1).drop_last() =~= chars@.take(i as int));
        if found.is_none() && chars[i] == ':' {
            found = Some(i);
        }
        i = i + 1;
    }
    assert(chars@.take(n as int) =~= line@);
    proof {
        lemma_first_index_bounds(line@, ':');
    }
    match found {
        Some(e) => {
            let k = string_of_range(&chars, 0, e);
            let v = string_of_range(&chars, e + 1, n);
            proof {
                assert(k@ =~= line@.take(e as int));
                assert(v@ =~= line@.skip(e + 1));
            }
            Some((k, v))
        },
        None => None,
    }
}

/// The line that records setting `key` to `value`: "key:value" and a newline.
pub fn aof_line(key: &str, value: &str) -> (r: String)
    ensures
        r@ == key@ + ":"@ + value@ + "\n"@,
{
    let mut r = String::from_str(key);
    r.append(":");
    r.append(value);
    r.append("\n");
    r
}

/// The map a list of settings stands for: a later setting of a key wins.
pub open spec fn settings_map(s: Seq<(String, Vec<u8>)>) -> Map<Seq<char>, Seq<u8>>
    decreases s.len(),
{
    if s.len() == 0 {
        Map::empty()
    } else {
        settings_map(s.drop_last()).insert(s.last().0@, s.last().1@)
    }
}

/// Settings after a position do not touch `k`, so the map agrees with the
/// settings before that position on `k`.
proof fn lemma_settings_suffix(s: Seq<(String, Vec<u8>)>, i: int, k: Seq<char>)
    requires
        0 <= i <= s.len(),
        forall|j: int| i <= j < s.len() ==> (#[trigger] s[j]).0@ != k,
    ensures
        settings_map(s).contains_key(k) == settings_map(s.take(i)).contains_key(k),
        settings_map(s).contains_key(k) ==> settings_map(s)[k] == settings_map(s.take(i))[k],
    decreases s.len(),
{
    if s.len() > i {
        assert(s.drop_last().take(i) =~= s.take(i));
        lemma_settings_suffix(s.drop_last(), i, k);
    } else {
        assert(s.take(i) =~= s);
    }
}

/// A key-value store of byte strings, keyed by name.
pub struct Db {
    entries: Vec<(String, Vec<u8>)>,
}

impl Db {
    pub closed spec fn view(&self) -> Map<Seq<char>, Seq<u8>> {
        settings_map(self.entries@)
    }

    /// An empty store.
    pub fn new() -> (r: Db)
        ensures
            r@ == Map::<Seq<char>, Seq<u8>>::empty(),
    {
        Db { entries: Vec::new() }
    }

    /// Sets `key` to `value`, replacing any earlier value.
    pub fn set(&mut self, key: String, value: Vec<u8>)
        ensures
            final(self)@ == old(self)@.insert(key@, value@),
    {
        let ghost before = self.entries@;
        self.entries.push((key, value));
        assert(self.entries@.drop_last() =~= before);
    }

    /// The value of `key`, if it is set.
    pub fn get(&self, key: &String) -> (r: Option<&Vec<u8>>)
        ensures
            match r {
                Some(v) => self@.contains_key(key@) && self@[key@] == v@,
                None => !self@.contains_key(key@),
            },
    {
        let mut i = self.entries.len();
        while i > 0
            invariant
                i <= self.entries@.len(),
                forall|j: int| i <= j < self.entries@.len() ==> (#[trigger] self.entries@[j]).0@ != key@,
            decreases i,
        {
            if self.entries[i - 1].0 == *key {
                proof {
                    lemma_settings_suffix(self.entries@, i as int, key@);
                    let t = self.entries@.take(i as int);
                    assert(t.drop_last() =~= self.entries@.take(i - 1));
                    assert(t.last() == self.entries@[i - 1]);
                }
                return Some(&self.entries[i - 1].1);
            }
            i = i - 1;
        }
        proof {
            lemma_settings_suffix(self.entries@, 0, key@);
            assert(self.entries@.take(0) =~= Seq::<(String, Vec<u8>)>::empty());
        }
        None
    }

    /// Replays one line of an append-only file: a "key:value" line sets the
    /// key to the value's UTF-8 bytes; any other line changes nothing.
    pub fn load_line(&mut self, line: &str)
        ensures
            final(self)@ == match aof_pair(line@) {
                Some((k, v)) => old(self)@.insert(k, encode_utf8(v)),
                None => old(self)@,
            },
    {
        match parse_aof_line(line) {
            Some((key, value)) => {
                let bytes = vstd::slice::slice_to_vec(value.as_str().as_bytes());
                self.set(key, bytes);
            },
            None => {},
        }
    }
}

} // verus!
