//! The parameter sanitizer: strips the reserved shell metacharacters from
//! every key and value and drops entries that stay too long after cleaning.
//! Its output is a mapping: when two cleaned keys collide, the later entry
//! replaces the earlier one, as a map insert would.
use vstd::prelude::*;
use vstd::pervasive::VecAdditionalExecFns;
use crate::chars::{reserved_char, is_reserved, chars_to_string, str_chars, str_eq};

verus! {

/// The longest key the sanitizer lets through, in characters.
pub const MAX_KEY_LEN: usize = 50;

/// The longest value the sanitizer lets through, in characters.
pub const MAX_VALUE_LEN: usize = 200;

/// One named parameter of a task request.
pub struct Param {
    pub key: String,
    pub value: String,
}

/// A parameter map, kept as a sequence of key/value pairs in insertion
/// order. Raw requests may repeat a key; the sanitizer's output never does.
pub struct ParamMap {
    pub entries: Vec<Param>,
}

impl View for Param {
    type V = (Seq<char>, Seq<char>);

    open spec fn view(&self) -> (Seq<char>, Seq<char>) {
        (self.key@, self.value@)
    }
}

impl View for ParamMap {
    type V = Seq<(Seq<char>, Seq<char>)>;

    open spec fn view(&self) -> Seq<(Seq<char>, Seq<char>)> {
        self.entries@.map_values(|p: Param| p@)
    }
}

/// The position of the first entry with the given key, or -1 when the key
/// does not occur.
pub open spec fn key_index(m: Seq<(Seq<char>, Seq<char>)>, k: Seq<char>) -> int
    decreases m.len(),
{
    if m.len() == 0 {
        -1
    } else if m[0].0 == k {
        0
    } else {
        let r = key_index(m.drop_first(), k);
        if r == -1 {
            -1
        } else {
            r + 1
        }
    }
}

/// What `key_index` returns: a position that holds the key and is preceded
/// by no entry with it, or -1 when no entry has the key.
pub proof fn lemma_key_index_props(m: Seq<(Seq<char>, Seq<char>)>, k: Seq<char>)
    ensures
        key_index(m, k) == -1 ==> forall|j: int| 0 <= j < m.len() ==> m[j].0 != k,
        key_index(m, k) != -1 ==> 0 <= key_index(m, k) < m.len() && m[key_index(m, k)].0 == k
            && forall|j: int| 0 <= j < key_index(m, k) ==> m[j].0 != k,
    decreases m.len(),
{
    if m.len() > 0 && m[0].0 != k {
        lemma_key_index_props(m.drop_first(), k);
        let r = key_index(m.drop_first(), k);
        if r == -1 {
            assert forall|j: int| 0 <= j < m.len() implies m[j].0 != k by {
                if j > 0 {
                    assert(m.drop_first()[j - 1] == m[j]);
                }
            }
        } else {
            assert(m.drop_first()[r] == m[r + 1]);
            assert forall|j: int| 0 <= j < r + 1 implies m[j].0 != k by {
                if j > 0 {
                    assert(m.drop_first()[j - 1] == m[j]);
                }
            }
        }
    }
}

proof fn lemma_key_index_at(m: Seq<(Seq<char>, Seq<char>)>, k: Seq<char>, i: int)
    requires
        0 <= i < m.len(),
        m[i].0 == k,
        forall|j: int| 0 <= j < i ==> m[j].0 != k,
    ensures
        key_index(m, k) == i,
    decreases i,
{
    if i > 0 {
        assert(forall|j: int| 0 <= j < m.drop_first().len() ==> m.drop_first()[j] == m[j + 1]);
        lemma_key_index_at(m.drop_first(), k, i - 1);
    }
}

/// A map insert on the entry sequence: an entry whose key already occurs
/// replaces the value in place, a fresh key is appended.
pub open spec fn insert_entry(
    m: Seq<(Seq<char>, Seq<char>)>,
    k: Seq<char>,
    v: Seq<char>,
) -> Seq<(Seq<char>, Seq<char>)> {
    let i = key_index(m, k);
    if i == -1 {
        m.push((k, v))
    } else {
        m.update(i, (k, v))
    }
}

impl ParamMap {
    /// The empty parameter map.
    pub fn new() -> (r: ParamMap)
        ensures
            r@ == Seq::<(Seq<char>, Seq<char>)>::empty(),
    {
        let r = ParamMap { entries: Vec::new() };
        proof {
            assert(r@ =~= Seq::<(Seq<char>, Seq<char>)>::empty());
        }
        r
    }

    /// Appends one key/value pair.
    pub fn push(&mut self, key: String, value: String)
        ensures
            final(self)@ == old(self)@.push((key@, value@)),
    {
        let ghost before = self@;
        let ghost k = key@;
        let ghost v = value@;
        self.entries.push(Param { key, value });
        proof {
            assert(self@ =~= before.push((k, v)));
        }
    }

    /// The number of entries.
    pub fn len(&self) -> (n: usize)
        ensures
            n == self@.len(),
    {
        self.entries.len()
    }

    /// The position of the first entry with the given key, if any.
    pub fn key_position(&self, key: &str) -> (r: Option<usize>)
        ensures
            r matches Some(i) ==> key_index(self@, key@) == i as int,
            r is None ==> key_index(self@, key@) == -1,
    {
        let mut i: usize = 0;
        while i < self.entries.len()
            invariant
                self@.len() == self.entries@.len(),
                i <= self@.len(),
                forall|j: int| 0 <= j < i ==> self@[j].0 != key@,
            decreases self@.len() - i,
        {
            proof {
                assert(self@[i as int] == self.entries@[i as int]@);
            }
            if str_eq(self.entries[i].key.as_str(), key) {
                proof {
                    lemma_key_index_at(self@, key@, i as int);
                }
                return Some(i);
            }
            i = i + 1;
        }
        proof {
            lemma_key_index_props(self@, key@);
            if key_index(self@, key@) != -1 {
                assert(self@[key_index(self@, key@)].0 == key@);
            }
        }
        None
    }

    /// Replaces the entry at a position.
    pub fn set(&mut self, i: usize, key: String, value: String)
        requires
            i < old(self)@.len(),
        ensures
            final(self)@ == old(self)@.update(i as int, (key@, value@)),
    {
        let ghost before = self@;
        let ghost k = key@;
        let ghost v = value@;
        self.entries.set(i, Param { key, value });
        proof {
            assert(self@ =~= before.update(i as int, (k, v)));
        }
    }

    /// Inserts one key/value pair as a map would: a key that already occurs
    /// has its entry replaced in place, a fresh key is appended.
    pub fn insert(&mut self, key: String, value: String)
        ensures
            final(self)@ == insert_entry(old(self)@, key@, value@),
    {
        match self.key_position(key.as_str()) {
            Some(i) => {
                proof {
                    lemma_key_index_props(self@, key@);
                }
                self.set(i, key, value);
            },
            None => {
                self.push(key, value);
            },
        }
    }
}

/// A string with every reserved shell metacharacter removed.
pub open spec fn clean_of(s: Seq<char>) -> Seq<char>
    decreases s.len(),
{
    if s.len() == 0 {
        s
    } else {
        let rest = clean_of(s.drop_last());
        if reserved_char(s.last()) {
            rest
        } else {
            rest.push(s.last())
        }
    }
}

/// Whether a string is free of the reserved shell metacharacters.
pub open spec fn no_reserved(s: Seq<char>) -> bool {
    forall|j: int| 0 <= j < s.len() ==> !reserved_char(s[j])
}

/// What the sanitizer returns: each entry cleaned, entries whose cleaned
/// key or value stays over the length bound dropped, and the survivors
/// inserted in order, each colliding cleaned key keeping only its latest
/// value.
pub open spec fn sanitize_spec(m: Seq<(Seq<char>, Seq<char>)>) -> Seq<(Seq<char>, Seq<char>)>
    decreases m.len(),
{
    if m.len() == 0 {
        m
    } else {
        let rest = sanitize_spec(m.drop_last());
        let ck = clean_of(m.last().0);
        let cv = clean_of(m.last().1);
        if ck.len() <= MAX_KEY_LEN && cv.len() <= MAX_VALUE_LEN {
            insert_entry(rest, ck, cv)
        } else {
            rest
        }
    }
}

/// Removes every reserved shell metacharacter from a character vector.
fn clean_chars(v: &Vec<char>) -> (out: Vec<char>)
    ensures
        out@ == clean_of(v@),
{
    let mut out: Vec<char> = Vec::new();
    let mut i: usize = 0;
    while i < v.len()
        invariant
            i <= v@.len(),
            out@ == clean_of(v@.take(i as int)),
        decreases v@.len() - i,
    {
        proof {
            assert(v@.take(i + 1).drop_last() =~= v@.take(i as int));
            assert(v@.take(i + 1).last() == v@[i as int]);
        }
        if !is_reserved(v[i]) {
            out.push(v[i]);
        }
        i = i + 1;
    }
    proof {
        assert(v@.take(v@.len() as int) =~= v@);
    }
    out
}

/// Cleans one string: the result holds the characters of `s` that are not
/// reserved shell metacharacters, in order.
pub fn clean_string(s: &str) -> (r: String)
    ensures
        r@ == clean_of(s@),
{
    let v = str_chars(s);
    let cleaned = clean_chars(&v);
    chars_to_string(&cleaned)
}

/// Produces the sanitized parameter map: every entry cleaned, oversize
/// entries dropped, the survivors inserted in order with colliding cleaned
/// keys collapsed to their latest value.
pub fn sanitize_parameters(params: &ParamMap) -> (r: ParamMap)
    ensures
        r@ == sanitize_spec(params@),
{
    let mut r = ParamMap::new();
    let mut i: usize = 0;
    while i < params.entries.len()
        invariant
            i <= params@.len(),
            params@.len() == params.entries@.len(),
            r@ == sanitize_spec(params@.take(i as int)),
        decreases params@.len() - i,
    {
        proof {
            assert(params@.take(i + 1).drop_last() =~= params@.take(i as int));
            assert(params@.take(i + 1).last() == params@[i as int]);
            assert(params@[i as int] == params.entries@[i as int]@);
        }
        let entry = &params.entries[i];
        let ck = clean_chars(&str_chars(entry.key.as_str()));
        let cv = clean_chars(&str_chars(entry.value.as_str()));
        if ck.len() <= MAX_KEY_LEN && cv.len() <= MAX_VALUE_LEN {
            r.insert(chars_to_string(&ck), chars_to_string(&cv));
        }
        i = i + 1;
    }
    proof {
        assert(params@.take(params@.len() as int) =~= params@);
    }
    r
}

/// Cleaning never leaves a reserved shell metacharacter behind.
pub proof fn lemma_clean_no_reserved(s: Seq<char>)
    ensures
        no_reserved(clean_of(s)),
    decreases s.len(),
{
    if s.len() > 0 {
        lemma_clean_no_reserved(s.drop_last());
    }
}

/// Cleaning a string that holds no reserved shell metacharacter returns it
/// unchanged.
pub proof fn lemma_clean_identity(s: Seq<char>)
    requires
        no_reserved(s),
    ensures
        clean_of(s) == s,
    decreases s.len(),
{
    if s.len() > 0 {
        assert(forall|j: int| 0 <= j < s.drop_last().len() ==> s.drop_last()[j] == s[j]);
        lemma_clean_identity(s.drop_last());
        assert(clean_of(s) =~= s);
    } else {
        assert(clean_of(s) =~= s);
    }
}

/// Every key in the sanitizer's output is at most `MAX_KEY_LEN` characters
/// long and holds no reserved shell metacharacter; every value likewise,
/// with the `MAX_VALUE_LEN` bound.
pub proof fn lemma_sanitize_bounds(m: Seq<(Seq<char>, Seq<char>)>, i: int)
    requires
        0 <= i < sanitize_spec(m).len(),
    ensures
        sanitize_spec(m)[i].0.len() <= MAX_KEY_LEN,
        sanitize_spec(m)[i].1.len() <= MAX_VALUE_LEN,
        no_reserved(sanitize_spec(m)[i].0),
        no_reserved(sanitize_spec(m)[i].1),
    decreases m.len(),
{
    if m.len() > 0 {
        let rest = sanitize_spec(m.drop_last());
        let ck = clean_of(m.last().0);
        let cv = clean_of(m.last().1);
        if ck.len() <= MAX_KEY_LEN && cv.len() <= MAX_VALUE_LEN {
            lemma_key_index_props(rest, ck);
            if sanitize_spec(m)[i] != (ck, cv) {
                lemma_sanitize_bounds(m.drop_last(), i);
            } else {
                lemma_clean_no_reserved(m.last().0);
                lemma_clean_no_reserved(m.last().1);
            }
        } else {
            lemma_sanitize_bounds(m.drop_last(), i);
        }
    }
}

/// Whether no two entries share a key.
pub open spec fn distinct_keys(m: Seq<(Seq<char>, Seq<char>)>) -> bool {
    forall|i: int, j: int| 0 <= i < j < m.len() ==> m[i].0 != m[j].0
}

/// The sanitizer's output is a mapping: no two of its entries share a key.
pub proof fn lemma_sanitize_distinct(m: Seq<(Seq<char>, Seq<char>)>)
    ensures
        distinct_keys(sanitize_spec(m)),
    decreases m.len(),
{
    if m.len() > 0 {
        lemma_sanitize_distinct(m.drop_last());
        let rest = sanitize_spec(m.drop_last());
        let ck = clean_of(m.last().0);
        let cv = clean_of(m.last().1);
        if ck.len() <= MAX_KEY_LEN && cv.len() <= MAX_VALUE_LEN {
            lemma_key_index_props(rest, ck);
            assert(distinct_keys(insert_entry(rest, ck, cv)));
        }
    }
}

/// Whether a parameter map is already clean: every key and value free of
/// reserved shell metacharacters and within the length bounds.
pub open spec fn clean_map(m: Seq<(Seq<char>, Seq<char>)>) -> bool {
    forall|i: int|
        0 <= i < m.len() ==> #[trigger] no_reserved(m[i].0) && no_reserved(m[i].1) && m[i].0.len()
            <= MAX_KEY_LEN && m[i].1.len() <= MAX_VALUE_LEN
}

/// Sanitizing an already-clean parameter map — clean entries under distinct
/// keys — is a no-op: such maps are fixed points of the sanitizer.
pub proof fn lemma_sanitize_fixed_point(m: Seq<(Seq<char>, Seq<char>)>)
    requires
        clean_map(m),
        distinct_keys(m),
    ensures
        sanitize_spec(m) == m,
    decreases m.len(),
{
    if m.len() > 0 {
        assert(no_reserved(m[m.len() - 1].0));
        assert(forall|i: int| 0 <= i < m.drop_last().len() ==> m.drop_last()[i] == m[i]);
        lemma_sanitize_fixed_point(m.drop_last());
        lemma_clean_identity(m.last().0);
        lemma_clean_identity(m.last().1);
        assert(forall|j: int| 0 <= j < m.drop_last().len() ==> m.drop_last()[j].0 != m.last().0);
        lemma_key_index_props(m.drop_last(), m.last().0);
        if key_index(m.drop_last(), m.last().0) != -1 {
            assert(m.drop_last()[key_index(m.drop_last(), m.last().0)].0 == m.last().0);
        }
        assert(sanitize_spec(m) =~= m);
    } else {
        assert(sanitize_spec(m) =~= m);
    }
}

/// The sanitizer is idempotent: its output is a fixed point.
pub proof fn lemma_sanitize_idempotent(m: Seq<(Seq<char>, Seq<char>)>)
    ensures
        sanitize_spec(sanitize_spec(m)) == sanitize_spec(m),
{
    let s = sanitize_spec(m);
    assert forall|i: int| 0 <= i < s.len() implies #[trigger] no_reserved(s[i].0) && no_reserved(
        s[i].1,
    ) && s[i].0.len() <= MAX_KEY_LEN && s[i].1.len() <= MAX_VALUE_LEN by {
        lemma_sanitize_bounds(m, i);
    }
    lemma_sanitize_distinct(m);
    lemma_sanitize_fixed_point(s);
}

} // verus!
