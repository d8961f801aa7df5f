//! The fixed alphabet of the 128 code points `0..128` and the encoder that
//! turns text into a vector of exactly `ENCODED_LEN` alphabet positions.

use ahash::AHashMap;
use vstd::prelude::*;

verus! {

/// Number of symbols in the alphabet (code points `0..ALPHABET_SIZE`).
pub const ALPHABET_SIZE: u32 = 128;

/// Width of every encoded vector.
pub const ENCODED_LEN: usize = 128;

#[verifier::external_type_specification]
#[verifier::external_body]
#[verifier::reject_recursive_types(K)]
#[verifier::reject_recursive_types(V)]
#[verifier::reject_recursive_types(S)]
pub struct ExAHashMap<K, V, S>(AHashMap<K, V, S>);

#[verifier::external_type_specification]
#[verifier::external_body]
pub struct ExRandomState(ahash::RandomState);

/// The entries held by a character table.
pub uninterp spec fn table_entries(m: AHashMap<u32, u32>) -> Map<u32, u32>;

/// Relies on `ahash::AHashMap::new`: a new map holds no entries.
#[verifier::external_body]
fn new_table() -> (r: AHashMap<u32, u32>)
    ensures
        table_entries(r) =~= Map::empty(),
{
    AHashMap::new()
}

/// Relies on `ahash::AHashMap::insert`: afterwards `k` maps to `v`, and every
/// other entry is as before.
#[verifier::external_body]
fn table_insert(m: &mut AHashMap<u32, u32>, k: u32, v: u32)
    ensures
        table_entries(*final(m)) == table_entries(*old(m)).insert(k, v),
{
    m.insert(k, v);
}

/// Relies on `ahash::AHashMap::get`: the value stored for `k`, if any.
#[verifier::external_body]
fn table_get(m: &AHashMap<u32, u32>, k: u32) -> (r: Option<u32>)
    ensures
        match r {
            Some(v) => table_entries(*m).contains_key(k) && table_entries(*m)[k] == v,
            None => !table_entries(*m).contains_key(k),
        },
{
    m.get(&k).copied()
}

/// Whether `c` belongs to the alphabet.
pub open spec fn in_alphabet(c: char) -> bool {
    (c as u32) < ALPHABET_SIZE
}

/// The 1-based position of an alphabet symbol.
pub open spec fn position_of(c: char) -> u32 {
    (c as u32 + 1) as u32
}

/// The alphabet as a map from each symbol's code point to its 1-based
/// position.
pub open spec fn alphabet_map() -> Map<u32, u32> {
    Map::new(|k: u32| k < ALPHABET_SIZE, |k: u32| (k + 1) as u32)
}

/// Positions of the alphabet symbols of `s`, in order; other characters are
/// skipped.
pub open spec fn positions(s: Seq<char>) -> Seq<u32>
    decreases s.len(),
{
    if s.len() == 0 {
        Seq::empty()
    } else {
        let p = positions(s.drop_last());
        if in_alphabet(s.last()) {
            p.push(position_of(s.last()))
        } else {
            p
        }
    }
}

/// `v` cut or padded on the right with zeros to exactly `ENCODED_LEN` entries.
pub open spec fn fit(v: Seq<u32>) -> Seq<u32> {
    Seq::new(ENCODED_LEN as nat, |i: int| if i < v.len() { v[i] } else { 0u32 })
}

/// The encoding of a text.
pub open spec fn encoding(s: Seq<char>) -> Seq<u32> {
    fit(positions(s))
}

/// The vector of `ENCODED_LEN` zeros.
pub open spec fn zeros() -> Seq<u32> {
    Seq::new(ENCODED_LEN as nat, |i: int| 0u32)
}

/// Every encoding has exactly `ENCODED_LEN` entries.
pub proof fn lemma_encoding_len(s: Seq<char>)
    ensures
        encoding(s).len() == ENCODED_LEN,
{
}

/// The empty text encodes to all zeros.
pub proof fn lemma_encoding_empty()
    ensures
        encoding(Seq::<char>::empty()) == zeros(),
{
    assert(encoding(Seq::<char>::empty()) =~= zeros());
}

proof fn lemma_positions_none(s: Seq<char>)
    requires
        forall|i: int| 0 <= i < s.len() ==> !in_alphabet(#[trigger] s[i]),
    ensures
        positions(s) == Seq::<u32>::empty(),
    decreases s.len(),
{
    if s.len() > 0 {
        lemma_positions_none(s.drop_last());
    }
}

/// A text with no alphabet symbol encodes to all zeros.
pub proof fn lemma_encoding_outside_alphabet(s: Seq<char>)
    requires
        forall|i: int| 0 <= i < s.len() ==> !in_alphabet(#[trigger] s[i]),
    ensures
        encoding(s) == zeros(),
{
    lemma_positions_none(s);
    assert(encoding(s) =~= zeros());
}

proof fn lemma_positions_all(s: Seq<char>)
    requires
        forall|i: int| 0 <= i < s.len() ==> in_alphabet(#[trigger] s[i]),
    ensures
        positions(s) == s.map_values(|c: char| position_of(c)),
    decreases s.len(),
{
    if s.len() > 0 {
        lemma_positions_all(s.drop_last());
    }
    assert(positions(s) =~= s.map_values(|c: char| position_of(c)));
}

/// A text of more than `ENCODED_LEN` alphabet symbols encodes to the
/// positions of its first `ENCODED_LEN` symbols; the rest is cut off.
pub proof fn lemma_encoding_truncates(s: Seq<char>)
    requires
        s.len() > ENCODED_LEN,
        forall|i: int| 0 <= i < s.len() ==> in_alphabet(#[trigger] s[i]),
    ensures
        encoding(s) == Seq::new(ENCODED_LEN as nat, |i: int| position_of(s[i])),
{
    lemma_positions_all(s);
    assert(encoding(s) =~= Seq::new(ENCODED_LEN as nat, |i: int| position_of(s[i])));
}

/// Encoding depends on the text alone: equal texts give equal vectors.
pub proof fn lemma_encoding_deterministic(s: Seq<char>, t: Seq<char>)
    requires
        s == t,
    ensures
        encoding(s) == encoding(t),
{
}

/// Lookup table from the code point of an alphabet symbol to its 1-based
/// position, built once and
/// shared read-only by every encoding.
pub struct AlphabetIndex {
    table: AHashMap<u32, u32>,
}

impl AlphabetIndex {
    pub closed spec fn wf(&self) -> bool {
        table_entries(self.table) == alphabet_map()
    }

    /// Builds the table of all `ALPHABET_SIZE` symbols.
    pub fn new() -> (r: AlphabetIndex)
        ensures
            r.wf(),
    {
        let mut table = new_table();
        let mut k: u32 = 0;
        while k < ALPHABET_SIZE
            invariant
                k <= ALPHABET_SIZE,
                table_entries(table) == Map::new(|j: u32| j < k, |j: u32| (j + 1) as u32),
            decreases ALPHABET_SIZE - k,
        {
            table_insert(&mut table, k, k + 1);
            assert(table_entries(table) =~= Map::new(
                |j: u32| j < k + 1,
                |j: u32| (j + 1) as u32,
            ));
            k = k + 1;
        }
        assert(table_entries(table) =~= alphabet_map());
        AlphabetIndex { table }
    }

    /// Position of `c` in the alphabet, or `None` for a character outside it.
    pub fn position(&self, c: char) -> (r: Option<u32>)
        requires
            self.wf(),
        ensures
            r == (if in_alphabet(c) { Some(position_of(c)) } else { None::<u32> }),
    {
        table_get(&self.table, c as u32)
    }

    /// Encodes `text`: the positions of its alphabet symbols in order, other
    /// characters skipped, cut or zero-padded to `ENCODED_LEN` entries.
    pub fn encode(&self, text: &str) -> (r: Vec<u32>)
        requires
            self.wf(),
        ensures
            r@ == encoding(text@),
            r@.len() == ENCODED_LEN,
    {
        let n = text.unicode_len();
        let mut found: Vec<u32> = Vec::new();
        let mut i: usize = 0;
        while i < n
            invariant
                self.wf(),
                n == text@.len(),
                i <= n,
                found@ == positions(text@.take(i as int)),
            decreases n - i,
        {
            let c = text.get_char(i);
            assert(text@.take(i + 1).drop_last() =~= text@.take(i as int));
            match self.position(c) {
                Some(p) => found.push(p),
                None => {},
            }
            i = i + 1;
        }
        assert(text@.take(n as int) =~= text@);
        let mut out: Vec<u32> = Vec::new();
        let mut j: usize = 0;
        while j < ENCODED_LEN
            invariant
                j <= ENCODED_LEN,
                found@ == positions(text@),
                out@ == fit(found@).take(j as int),
            decreases ENCODED_LEN - j,
        {
            if j < found.len() {
                out.push(found[j]);
            } else {
                out.push(0);
            }
            assert(out@ =~= fit(found@).take(j + 1));
            j = j + 1;
        }
        assert(out@ =~= fit(found@));
        out
    }
}

} // verus!
