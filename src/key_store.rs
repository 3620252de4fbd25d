use vstd::prelude::*;
use vstd::string::StringSliceAdditionalSpecFns;

use crate::api_key::{bytes_equal, ApiKey};

verus! {

/// Where the line that starts `text` ends: the index of its first newline,
/// or the length of `text` where it holds none.
pub open spec fn line_end(text: Seq<u8>) -> nat
    decreases text.len(),
{
    if text.len() == 0 || text[0] == 10u8 {
        0
    } else {
        1 + line_end(text.drop_first())
    }
}

/// `line` without one trailing carriage return.
pub open spec fn strip_cr(line: Seq<u8>) -> Seq<u8> {
    if line.len() > 0 && line.last() == 13u8 {
        line.drop_last()
    } else {
        line
    }
}

/// The keys that a key file holds: each non-empty line of `text`, where a
/// line ends at a newline or at the end of the text, and a carriage return
/// right before a newline belongs to no line (one at the very end of the
/// text, with no newline after it, stays in the last line).
pub open spec fn key_lines(text: Seq<u8>) -> Set<Seq<u8>>
    decreases text.len(),
{
    if text.len() == 0 {
        Set::empty()
    } else {
        let end = line_end(text);
        let line = if end < text.len() {
            strip_cr(text.take(end as int))
        } else {
            text.take(end as int)
        };
        let rest = if end < text.len() {
            key_lines(text.skip(end as int + 1))
        } else {
            Set::empty()
        };
        if line.len() > 0 {
            rest.insert(line)
        } else {
            rest
        }
    }
}

proof fn lemma_line_end(text: Seq<u8>, end: int)
    requires
        0 <= end <= text.len(),
        forall|j: int| 0 <= j < end ==> text[j] != 10u8,
        end == text.len() || text[end] == 10u8,
    ensures
        line_end(text) == end,
    decreases end,
{
    if end > 0 {
        let rest = text.drop_first();
        assert forall|j: int| 0 <= j < end - 1 implies rest[j] != 10u8 by {
            assert(rest[j] == text[j + 1]);
        }
        if end < text.len() {
            assert(rest[end - 1] == text[end]);
        }
        lemma_line_end(rest, end - 1);
    }
}

/// Copies `bytes[from..to]` into a new vector.
fn copy_range(bytes: &[u8], from: usize, to: usize) -> (r: Vec<u8>)
    requires
        from <= to <= bytes@.len(),
    ensures
        r@ == bytes@.subrange(from as int, to as int),
{
    let mut r: Vec<u8> = Vec::new();
    let mut i: usize = from;
    while i < to
        invariant
            from <= i <= to <= bytes@.len(),
            r@ == bytes@.subrange(from as int, i as int),
        decreases to - i,
    {
        r.push(bytes[i]);
        i = i + 1;
        assert(r@ =~= bytes@.subrange(from as int, i as int));
    }
    r
}

/// The raw bytes of each key in `keys`, in order.
pub open spec fn key_bytes(keys: Seq<ApiKey>) -> Seq<Seq<u8>> {
    keys.map_values(|k: ApiKey| k@)
}

/// Index of a key of `keys` whose bytes are `candidate`, if one is there.
fn position(keys: &Vec<ApiKey>, candidate: &[u8]) -> (r: Option<usize>)
    ensures
        match r {
            Some(i) => i < keys@.len() && keys@[i as int]@ == candidate@,
            None => !key_bytes(keys@).contains(candidate@),
        },
{
    let mut i: usize = 0;
    while i < keys.len()
        invariant
            i <= keys@.len(),
            forall|j: int| 0 <= j < i ==> (#[trigger] keys@[j])@ != candidate@,
        decreases keys@.len() - i,
    {
        if bytes_equal(keys[i].0.as_slice(), candidate) {
            return Some(i);
        }
        i = i + 1;
    }
    assert forall|j: int| 0 <= j < key_bytes(keys@).len() implies key_bytes(keys@)[j] != candidate@ by {
        assert(key_bytes(keys@)[j] == keys@[j]@);
    }
    None
}

/// Adds `key` to `keys` unless a key with the same bytes is there.
fn add_key(keys: &mut Vec<ApiKey>, key: ApiKey)
    requires
        key_bytes(old(keys)@).no_duplicates(),
    ensures
        key_bytes(final(keys)@).no_duplicates(),
        key_bytes(final(keys)@).to_set() == key_bytes(old(keys)@).to_set().insert(key@),
{
    let ghost before = key_bytes(keys@);
    match position(keys, key.0.as_slice()) {
        Some(i) => {
            proof {
                assert(before[i as int] == key@);
                assert(before.to_set().insert(key@) =~= before.to_set());
            }
        },
        None => {
            keys.push(key);
            proof {
                assert(key_bytes(keys@) =~= before.push(key@));
                before.lemma_push_to_set_commute(key@);
            }
        },
    }
}

/// An immutable set of admissible keys.
pub struct KeyStore {
    keys: Vec<ApiKey>,
}

impl KeyStore {
    #[verifier::type_invariant]
    spec fn distinct(&self) -> bool {
        key_bytes(self.keys@).no_duplicates()
    }

    /// The set of keys, as raw bytes.
    pub closed spec fn view(&self) -> Set<Seq<u8>> {
        key_bytes(self.keys@).to_set()
    }

    /// Number of distinct keys held.
    pub fn len(&self) -> (r: usize)
        ensures
            r == self.view().len(),
    {
        proof {
            use_type_invariant(self);
            key_bytes(self.keys@).unique_seq_to_set();
        }
        self.keys.len()
    }

    /// Whether `candidate` is one of the keys, by exact comparison of bytes.
    pub fn contains(&self, candidate: &ApiKey) -> (r: bool)
        ensures
            r == self.view().contains(candidate@),
    {
        let found = position(&self.keys, candidate.0.as_slice());
        proof {
            if let Some(i) = found {
                assert(key_bytes(self.keys@)[i as int] == candidate@);
            }
        }
        found.is_some()
    }

    /// The store that holds the given keys; repeated keys count once.
    pub fn from_keys(keys: Vec<ApiKey>) -> (r: KeyStore)
        ensures
            r.view() == key_bytes(keys@).to_set(),
    {
        let mut held: Vec<ApiKey> = Vec::new();
        let mut i: usize = 0;
        proof {
            assert(key_bytes(held@).to_set() =~= key_bytes(keys@.take(0)).to_set());
        }
        while i < keys.len()
            invariant
                i <= keys@.len(),
                key_bytes(held@).no_duplicates(),
                key_bytes(held@).to_set() == key_bytes(keys@.take(i as int)).to_set(),
            decreases keys@.len() - i,
        {
            let key = ApiKey(copy_range(keys[i].0.as_slice(), 0, keys[i].0.len()));
            proof {
                assert(keys@[i as int].0@.subrange(0, keys@[i as int].0@.len() as int) =~= keys@[i as int]@);
            }
            add_key(&mut held, key);
            proof {
                assert(key_bytes(keys@.take(i + 1)) =~= key_bytes(keys@.take(i as int)).push(keys@[i as int]@));
                key_bytes(keys@.take(i as int)).lemma_push_to_set_commute(keys@[i as int]@);
            }
            i = i + 1;
        }
        proof {
            assert(keys@.take(keys@.len() as int) =~= keys@);
        }
        KeyStore { keys: held }
    }
}

impl ApiKey {
    /// The keys held by a key file whose text is `contents`: one key per
    /// non-empty line, as the line's raw bytes.
    pub fn from_file(contents: &str) -> (r: KeyStore)
        ensures
            r.view() == key_lines(contents.spec_bytes()),
    {
        let text = contents.as_bytes();
        let ghost all = text@;
        let mut held: Vec<ApiKey> = Vec::new();
        let mut start: usize = 0;
        proof {
            assert(all.skip(0) =~= all);
            assert(key_bytes(held@).to_set() =~= Set::empty());
        }
        while start < text.len()
            invariant
                all == text@,
                start <= all.len(),
                key_bytes(held@).no_duplicates(),
                key_bytes(held@).to_set().union(key_lines(all.skip(start as int))) == key_lines(all),
            decreases all.len() - start,
        {
            let mut end: usize = start;
            while end < text.len() && text[end] != 10u8
                invariant
                    all == text@,
                    start <= end <= all.len(),
                    forall|j: int| start <= j < end ==> all[j] != 10u8,
                decreases all.len() - end,
            {
                end = end + 1;
            }
            let ghost rest = all.skip(start as int);
            proof {
                assert forall|j: int| 0 <= j < end - start implies rest[j] != 10u8 by {
                    assert(rest[j] == all[start + j]);
                }
                if end < all.len() {
                    assert(rest[end - start] == all[end as int]);
                }
                lemma_line_end(rest, end - start);
                assert(rest.take(end - start) =~= all.subrange(start as int, end as int));
                if end < all.len() {
                    assert(rest.skip(end - start + 1) =~= all.skip(end + 1));
                }
            }
            let line_stop: usize = if end < text.len() && end > start && text[end - 1] == 13u8 {
                end - 1
            } else {
                end
            };
            let ghost before = key_bytes(held@).to_set();
            if line_stop > start {
                let line = copy_range(text, start, line_stop);
                proof {
                    if end < all.len() {
                        assert(line@ =~= strip_cr(all.subrange(start as int, end as int)));
                    } else {
                        assert(line@ =~= all.subrange(start as int, end as int));
                    }
                }
                add_key(&mut held, ApiKey(line));
            } else {
                proof {
                    assert(strip_cr(all.subrange(start as int, end as int)).len() == 0);
                    assert(all.subrange(start as int, end as int).len() == 0 || end < all.len());
                }
            }
            if end < text.len() {
                start = end + 1;
            } else {
                start = end;
                proof {
                    assert(all.skip(start as int) =~= Seq::<u8>::empty());
                }
            }
            proof {
                assert(key_bytes(held@).to_set().union(key_lines(all.skip(start as int))) =~= key_lines(all));
            }
        }
        proof {
            assert(all.skip(start as int) =~= Seq::<u8>::empty());
            assert(key_bytes(held@).to_set().union(Set::empty()) =~= key_bytes(held@).to_set());
        }
        KeyStore { keys: held }
    }
}

} // verus!
